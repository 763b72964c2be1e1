//! The rewriting pass: for each node that the traversal reaches, decide on
//! the edit (wrap a function into an annotation array, unwrap or restring
//! an existing one, convert a method to an annotated property, add or drop
//! a class's static `$inject`), and plan where `name.$inject = [...]`
//! statements are inserted, rebuilt or removed.

use vstd::prelude::*;
use crate::ast::{
    ArrowExpr, Class, ClassDecl, DefaultDecl, Expr, FnDecl, FnExpr, Function, ObjectLit, PropOrSpread, Stmt,
    VarDeclarator, expr_span_lo,
};
use crate::config::{spec_adf_enabled, spec_mode, spec_rename_map, Mode, PluginConfig, RenameMap};
use crate::regexp::{build_regexp, default_pattern, default_regexp, regex_compiles, Pattern, RegexError};
use crate::scan::{ctor_params_of, extract_class_constructor_params, DeclInfo, ScanContext, ScanView, SuspectView};
use crate::transforms::{
    build_annotation_strings, class_has_static_inject, spec_annotation_strings, spec_class_has_static_inject,
    ExprEdit,
};
use crate::utils::{
    extract_params, extract_pats_params, get_fn_params, is_annotated_array, is_fn_with_args, param_names,
    spec_fn_params, spec_is_annotated_array, spec_is_fn_with_args, str_views,
};

verus! {

/// What a pending `$inject` operation does.
#[derive(Debug, Clone, Copy, PartialEq, Eq, Structural)]
pub enum InjectOpKind {
    /// Insert `name.$inject = [...]` unless there is one.
    Add,
    /// Remove every `name.$inject = ..`.
    Remove,
    /// Replace the first `name.$inject = ..`, or insert one.
    Rebuild,
}

/// A `$inject` operation waiting for the statement list that holds the
/// declaration of `name`.
pub struct PendingInjectOp {
    /// Where the declaring statement starts.
    pub stmt_lo: u32,
    pub name: String,
    /// Where the identifier to attach `$inject` to starts, when known.
    pub ident_lo: Option<u32>,
    pub params: Vec<String>,
    pub op: InjectOpKind,
}

/// A pending operation with its strings as character sequences.
pub struct OpView {
    pub stmt_lo: u32,
    pub name: Seq<char>,
    pub ident_lo: Option<u32>,
    pub params: Seq<Seq<char>>,
    pub op: InjectOpKind,
}

impl View for PendingInjectOp {
    type V = OpView;

    open spec fn view(&self) -> OpView {
        OpView {
            stmt_lo: self.stmt_lo,
            name: self.name@,
            ident_lo: self.ident_lo,
            params: str_views(self.params@),
            op: self.op,
        }
    }
}

/// The views of a list of operations.
pub open spec fn op_views(v: Seq<PendingInjectOp>) -> Seq<OpView> {
    v.map_values(|p: PendingInjectOp| p@)
}

/// The operation kind of a mode.
pub open spec fn op_of(mode: Mode) -> InjectOpKind {
    match mode {
        Mode::Add => InjectOpKind::Add,
        Mode::Remove => InjectOpKind::Remove,
        Mode::Rebuild => InjectOpKind::Rebuild,
    }
}

/// Schedules an operation for `name` at `stmt_lo`, unless one is pending
/// for the same name and statement.
pub open spec fn spec_schedule(
    pending: Seq<OpView>,
    mode: Mode,
    name: Seq<char>,
    ident_lo: Option<u32>,
    params: Seq<Seq<char>>,
    stmt_lo: u32,
) -> Seq<OpView> {
    if exists|i: int| 0 <= i < pending.len() && #[trigger] pending[i].name == name && pending[i].stmt_lo == stmt_lo {
        pending
    } else {
        pending.push(OpView { stmt_lo, name, ident_lo, params, op: op_of(mode) })
    }
}

/// No two pending operations are for the same name and statement.
pub open spec fn ops_unique(p: Seq<OpView>) -> bool {
    forall|i: int, j: int| 0 <= i < j < p.len() ==> !(p[i].name == p[j].name && p[i].stmt_lo == p[j].stmt_lo)
}

/// A step from `before` to `after` keeps at most one pending operation per
/// name and statement.
pub open spec fn keeps_unique(before: Seq<OpView>, after: Seq<OpView>) -> bool {
    ops_unique(before) ==> ops_unique(after)
}

/// An expression edit with its strings as character sequences.
pub enum EditView {
    Wrap(Seq<Seq<char>>),
    Unwrap,
    Restring(Seq<Seq<char>>),
}

/// The view of an edit.
pub open spec fn edit_view(e: ExprEdit) -> EditView {
    match e {
        ExprEdit::Wrap(s) => EditView::Wrap(str_views(s@)),
        ExprEdit::Unwrap => EditView::Unwrap,
        ExprEdit::Restring(s) => EditView::Restring(str_views(s@)),
    }
}

/// The edit of `e` in `mode`: adding wraps an unannotated function with
/// parameters; removing unwraps an annotated array; rebuilding restrings
/// an annotated array or wraps a function with parameters.
pub open spec fn spec_transform(mode: Mode, e: Expr, strings: Seq<Seq<char>>) -> Option<EditView> {
    match mode {
        Mode::Add => if spec_is_fn_with_args(e) && !spec_is_annotated_array(e) {
            Some(EditView::Wrap(strings))
        } else {
            None
        },
        Mode::Remove => if spec_is_annotated_array(e) {
            Some(EditView::Unwrap)
        } else {
            None
        },
        Mode::Rebuild => if spec_is_annotated_array(e) {
            Some(EditView::Restring(strings))
        } else if spec_is_fn_with_args(e) {
            Some(EditView::Wrap(strings))
        } else {
            None
        },
    }
}

/// The parameters of an expression: those of a function, of the function
/// of an annotated array, or of the declaration an identifier names.
pub open spec fn spec_params_for(c: ScanView, e: Expr) -> Option<Seq<Seq<char>>> {
    match e {
        Expr::Fn(f) => Some(param_names(f.function.params@)),
        Expr::Arrow(a) => Some(param_names(a.params@)),
        Expr::Array(a) => if spec_is_annotated_array(e) {
            match a.elems@.last() {
                Some(l) => spec_fn_params(l),
                None => None,
            }
        } else {
            None
        },
        Expr::Ident(id) => if c.decl_map.contains_key(id.name@) {
            Some(c.decl_map[id.name@].params)
        } else {
            None
        },
        _ => None,
    }
}

/// An expression at `lo` is a suspect that is not blocked.
pub open spec fn spec_is_suspect(c: ScanView, lo: u32) -> bool {
    !c.blocked.contains(lo) && exists|i: int| 0 <= i < c.suspects.len() && #[trigger] c.suspects[i].target_lo == lo
        && !c.suspects[i].blocked
}

/// The annotator's state for one program.
pub struct NgAnnotateVisitor {
    mode: Mode,
    rename_map: RenameMap,
    regexp: Pattern,
    enable_adf: bool,
    scan: Option<ScanContext>,
    pending_injects: Vec<PendingInjectOp>,
}

impl NgAnnotateVisitor {
    pub closed spec fn spec_mode(&self) -> Mode {
        self.mode
    }

    pub closed spec fn rename(&self) -> Map<Seq<char>, Seq<char>> {
        self.rename_map@
    }

    pub closed spec fn pattern(&self) -> Seq<char> {
        self.regexp.spec_source()
    }

    pub closed spec fn adf(&self) -> bool {
        self.enable_adf
    }

    /// What the scan recorded, once it has run.
    pub closed spec fn scanned(&self) -> Option<ScanView> {
        match self.scan {
            Some(c) => Some(c@),
            None => None,
        }
    }

    /// The pending `$inject` operations.
    pub closed spec fn pending(&self) -> Seq<OpView> {
        op_views(self.pending_injects@)
    }

    /// The recorded scan; meaningful once the scan has run.
    pub open spec fn ctx(&self) -> ScanView {
        self.scanned()->0
    }

    /// The annotation strings for `params` under this visitor's rename map.
    pub open spec fn strings(&self, params: Seq<Seq<char>>) -> Seq<Seq<char>> {
        spec_annotation_strings(params, self.rename())
    }

    /// Mode, rename map, pattern, dashboard flag and scan are as in `other`.
    pub open spec fn same_settings(&self, other: &NgAnnotateVisitor) -> bool {
        &&& self.spec_mode() == other.spec_mode()
        &&& self.rename() == other.rename()
        &&& self.pattern() == other.pattern()
        &&& self.adf() == other.adf()
        &&& self.scanned() == other.scanned()
    }

    /// A visitor for `config`. Fails exactly when neither the configured
    /// pattern nor the default one compiles.
    pub fn new(config: PluginConfig) -> (r: Result<NgAnnotateVisitor, RegexError>)
        requires
            spec_mode(config.add, config.remove) is Some,
        ensures
            r is Ok <==> ((config.regexp matches Some(p) && regex_compiles(p@)) || regex_compiles(default_pattern())),
            r matches Ok(v) ==> {
                &&& v.spec_mode() == spec_mode(config.add, config.remove)->0
                &&& v.rename() == spec_rename_map(config.rename)
                &&& v.pattern() == (if config.regexp matches Some(p) && regex_compiles(p@) {
                    config.regexp->0@
                } else {
                    default_pattern()
                })
                &&& v.adf() == spec_adf_enabled(config.enable)
                &&& v.scanned() is None
                &&& v.pending() == Seq::<OpView>::empty()
            },
    {
        let mode = match config.mode() {
            Some(m) => m,
            None => Mode::Add,
        };
        let rename_map = config.rename_map();
        let enable_adf = config.is_adf_enabled();
        let user = match &config.regexp {
            Some(pattern) => build_regexp(pattern.as_str()),
            None => Err(RegexError::Invalid),
        };
        let regexp = match user {
            Ok(p) => p,
            Err(_) => match default_regexp() {
                Ok(p) => p,
                Err(e) => {
                    return Err(e);
                },
            },
        };
        let v = NgAnnotateVisitor { mode, rename_map, regexp, enable_adf, scan: None, pending_injects: Vec::new() };
        assert(v.pending() =~= Seq::<OpView>::empty());
        Ok(v)
    }

    /// The pattern that decides which names count as modules.
    pub fn regexp(&self) -> (r: &Pattern)
        ensures
            r.spec_source() == self.pattern(),
    {
        &self.regexp
    }

    /// Whether the dashboard matcher is enabled.
    pub fn enable_adf(&self) -> (r: bool)
        ensures
            r == self.adf(),
    {
        self.enable_adf
    }

    /// The mode.
    pub fn mode(&self) -> (r: Mode)
        ensures
            r == self.spec_mode(),
    {
        self.mode
    }

    /// Whether the expression at `lo` carries an `ngNoInject` request.
    pub fn is_blocked(&self, lo: u32) -> (r: bool)
        requires
            self.scanned() is Some,
        ensures
            r == self.ctx().blocked.contains(lo),
    {
        match &self.scan {
            Some(c) => c.blocked.contains(lo),
            None => false,
        }
    }

    /// Whether the expression at `lo` carries an `ngInject` request.
    pub fn is_ng_inject_explicit(&self, lo: u32) -> (r: bool)
        requires
            self.scanned() is Some,
        ensures
            r == self.ctx().explicit.contains(lo),
    {
        match &self.scan {
            Some(c) => c.ng_inject_explicit.contains(lo),
            None => false,
        }
    }

    /// Whether the expression at `lo` is a suspect that is not blocked.
    pub fn is_suspect(&self, lo: u32) -> (r: bool)
        requires
            self.scanned() is Some,
        ensures
            r == spec_is_suspect(self.ctx(), lo),
    {
        if self.is_blocked(lo) {
            return false;
        }
        match &self.scan {
            Some(c) => {
                let mut i: usize = 0;
                while i < c.suspects.len()
                    invariant
                        self.scan == Some(*c),
                        !self.ctx().blocked.contains(lo),
                        i <= c.suspects@.len(),
                        forall|j: int| 0 <= j < i ==> !(c@.suspects[j].target_lo == lo && !c@.suspects[j].blocked),
                    decreases c.suspects@.len() - i,
                {
                    if c.suspects[i].target_lo == lo && !c.suspects[i].blocked {
                        assert(c@.suspects[i as int].target_lo == lo);
                        return true;
                    }
                    i = i + 1;
                }
                false
            },
            None => false,
        }
    }

    /// The parameters of an expression, as far as they can be known.
    pub fn get_params_for_expr(&self, expr: &Expr) -> (r: Option<Vec<String>>)
        requires
            self.scanned() is Some,
        ensures
            match r {
                Some(v) => spec_params_for(self.ctx(), *expr) == Some(str_views(v@)),
                None => spec_params_for(self.ctx(), *expr) is None,
            },
    {
        match expr {
            Expr::Fn(f) => Some(extract_params(&f.function.params)),
            Expr::Arrow(a) => Some(extract_pats_params(&a.params)),
            Expr::Array(arr) => {
                if is_annotated_array(expr) {
                    let n = arr.elems.len();
                    match &arr.elems[n - 1] {
                        Some(e) => get_fn_params(e),
                        None => None,
                    }
                } else {
                    None
                }
            },
            Expr::Ident(id) => match &self.scan {
                Some(c) => match c.decl_map.get(id.name.as_str()) {
                    Some(info) => Some(crate::transforms::clone_strings(&info.params)),
                    None => None,
                },
                None => None,
            },
            _ => None,
        }
    }

    /// The edit of `expr` in this visitor's mode, for parameters `params`.
    pub fn transform_expr(&self, expr: &Expr, params: &Vec<String>) -> (r: Option<ExprEdit>)
        ensures
            match r {
                Some(e) => spec_transform(self.spec_mode(), *expr, self.strings(str_views(params@))) == Some(edit_view(e)),
                None => spec_transform(self.spec_mode(), *expr, self.strings(str_views(params@))) is None,
            },
    {
        match self.mode {
            Mode::Add => {
                if is_fn_with_args(expr) && !is_annotated_array(expr) {
                    Some(ExprEdit::Wrap(build_annotation_strings(params, &self.rename_map)))
                } else {
                    None
                }
            },
            Mode::Remove => {
                if is_annotated_array(expr) {
                    Some(ExprEdit::Unwrap)
                } else {
                    None
                }
            },
            Mode::Rebuild => {
                if is_annotated_array(expr) {
                    Some(ExprEdit::Restring(build_annotation_strings(params, &self.rename_map)))
                } else if is_fn_with_args(expr) {
                    Some(ExprEdit::Wrap(build_annotation_strings(params, &self.rename_map)))
                } else {
                    None
                }
            },
        }
    }

    /// Schedules an operation for `name` at `stmt_lo`, unless one is
    /// pending for the same name and statement.
    fn schedule_inject(&mut self, name: String, ident_lo: Option<u32>, params: Vec<String>, stmt_lo: u32)
        ensures
            final(self).pending() == spec_schedule(old(self).pending(), old(self).spec_mode(), name@, ident_lo, str_views(params@), stmt_lo),
            final(self).same_settings(old(self)),
            keeps_unique(old(self).pending(), final(self).pending()),
    {
        proof {
            if ops_unique(old(self).pending()) {
                crate::laws::law_schedule_unique(
                    old(self).pending(),
                    old(self).spec_mode(),
                    name@,
                    ident_lo,
                    str_views(params@),
                    stmt_lo,
                );
            }
        }
        let op = match self.mode {
            Mode::Add => InjectOpKind::Add,
            Mode::Remove => InjectOpKind::Remove,
            Mode::Rebuild => InjectOpKind::Rebuild,
        };
        let mut i: usize = 0;
        while i < self.pending_injects.len()
            invariant
                i <= self.pending_injects@.len(),
                forall|j: int| 0 <= j < i ==> !(#[trigger] self.pending()[j].name == name@ && self.pending()[j].stmt_lo == stmt_lo),
            decreases self.pending_injects@.len() - i,
        {
            if self.pending_injects[i].stmt_lo == stmt_lo && crate::text::str_eq(self.pending_injects[i].name.as_str(), name.as_str()) {
                assert(self.pending()[i as int].name == name@);
                return;
            }
            i = i + 1;
        }
        let p = PendingInjectOp { stmt_lo, name, ident_lo, params, op };
        let ghost pv = p@;
        self.pending_injects.push(p);
        assert(self.pending() =~= old(self).pending().push(pv));
    }
}


/// The first suspect recorded at `lo`.
pub open spec fn first_suspect_at(ss: Seq<SuspectView>, lo: u32) -> Option<SuspectView>
    decreases ss.len(),
{
    if ss.len() == 0 {
        None
    } else if ss[0].target_lo == lo {
        Some(ss[0])
    } else {
        first_suspect_at(ss.drop_first(), lo)
    }
}

/// The operations that explicit requests at `los` schedule: for each, in
/// order, the declaration named by the first suspect at that position.
pub open spec fn explicit_sched(c: ScanView, mode: Mode, pending: Seq<OpView>, los: Seq<u32>) -> Seq<OpView>
    decreases los.len(),
{
    if los.len() == 0 {
        pending
    } else {
        let p = explicit_sched(c, mode, pending, los.drop_last());
        match first_suspect_at(c.suspects, los.last()) {
            Some(s) => match s.ref_name {
                Some(rn) => if c.decl_map.contains_key(rn) {
                    spec_schedule(p, mode, rn, None, c.decl_map[rn].params, c.decl_map[rn].stmt_lo)
                } else {
                    p
                },
                None => p,
            },
            None => p,
        }
    }
}

/// What the rewriting does to one argument of a chained call.
pub enum ArgEffect {
    /// Schedule a `$inject` operation for the declaration the argument names.
    Schedule(Seq<char>, u32, Seq<Seq<char>>, u32),
    /// Edit the argument.
    Edit(EditView),
    Nothing,
}

/// What the rewriting does to the argument `arg` of a chained call.
pub open spec fn arg_effect(c: ScanView, mode: Mode, rename: Map<Seq<char>, Seq<char>>, arg: Expr) -> ArgEffect {
    if !spec_is_suspect(c, arg.spec_lo()) {
        ArgEffect::Nothing
    } else {
        match arg {
            Expr::Ident(id) => if c.decl_map.contains_key(id.name@) && c.decl_map[id.name@].params.len() > 0 {
                ArgEffect::Schedule(id.name@, id.lo, c.decl_map[id.name@].params, c.decl_map[id.name@].stmt_lo)
            } else {
                ArgEffect::Nothing
            },
            _ => match spec_params_for(c, arg) {
                Some(ps) => if ps.len() > 0 {
                    match spec_transform(mode, arg, spec_annotation_strings(ps, rename)) {
                        Some(ed) => ArgEffect::Edit(ed),
                        None => ArgEffect::Nothing,
                    }
                } else {
                    ArgEffect::Nothing
                },
                None => ArgEffect::Nothing,
            },
        }
    }
}

/// The operations scheduled by the arguments `args`, in order.
pub open spec fn sched_args(pending: Seq<OpView>, c: ScanView, mode: Mode, rename: Map<Seq<char>, Seq<char>>, args: Seq<Expr>) -> Seq<OpView>
    decreases args.len(),
{
    if args.len() == 0 {
        pending
    } else {
        let p = sched_args(pending, c, mode, rename, args.drop_last());
        match arg_effect(c, mode, rename, args.last()) {
            ArgEffect::Schedule(name, ident_lo, params, stmt_lo) => spec_schedule(p, mode, name, Some(ident_lo), params, stmt_lo),
            _ => p,
        }
    }
}

/// The edits of the arguments `args`, with their indices, in order.
pub open spec fn arg_edits(c: ScanView, mode: Mode, rename: Map<Seq<char>, Seq<char>>, args: Seq<Expr>) -> Seq<(int, EditView)>
    decreases args.len(),
{
    if args.len() == 0 {
        Seq::empty()
    } else {
        let prev = arg_edits(c, mode, rename, args.drop_last());
        match arg_effect(c, mode, rename, args.last()) {
            ArgEffect::Edit(ed) => prev.push((args.len() - 1, ed)),
            _ => prev,
        }
    }
}

/// An edit of an object property with its strings as character sequences.
pub enum PropEditView {
    Value(EditView),
    MethodToAnnotated(Seq<Seq<char>>),
}

/// The edit of a property: a suspect key-value property gets its value
/// edited; a suspect method with parameters becomes an annotated
/// key-value property, except when removing.
pub open spec fn spec_prop_edit(c: ScanView, mode: Mode, rename: Map<Seq<char>, Seq<char>>, p: PropOrSpread) -> Option<PropEditView> {
    match p {
        PropOrSpread::KeyValue(kv) => if spec_is_suspect(c, kv.value.spec_lo()) {
            match spec_params_for(c, *kv.value) {
                Some(ps) => if ps.len() > 0 {
                    match spec_transform(mode, *kv.value, spec_annotation_strings(ps, rename)) {
                        Some(ed) => Some(PropEditView::Value(ed)),
                        None => None,
                    }
                } else {
                    None
                },
                None => None,
            }
        } else {
            None
        },
        PropOrSpread::Method(m) => if spec_is_suspect(c, m.function.lo) && mode != Mode::Remove
            && param_names(m.function.params@).len() > 0 {
            Some(PropEditView::MethodToAnnotated(spec_annotation_strings(param_names(m.function.params@), rename)))
        } else {
            None
        },
        PropOrSpread::Other => None,
    }
}

/// The edits of the properties `props` of an object that is argument
/// `arg` (0 for an object literal on its own), with their indices.
pub open spec fn prop_edits_in(c: ScanView, mode: Mode, rename: Map<Seq<char>, Seq<char>>, props: Seq<PropOrSpread>, arg: int) -> Seq<(int, int, PropEditView)>
    decreases props.len(),
{
    if props.len() == 0 {
        Seq::empty()
    } else {
        let prev = prop_edits_in(c, mode, rename, props.drop_last(), arg);
        match spec_prop_edit(c, mode, rename, props.last()) {
            Some(pe) => prev.push((arg, props.len() - 1, pe)),
            None => prev,
        }
    }
}

/// The property edits of the object arguments among `args`.
pub open spec fn obj_prop_edits(c: ScanView, mode: Mode, rename: Map<Seq<char>, Seq<char>>, args: Seq<Expr>) -> Seq<(int, int, PropEditView)>
    decreases args.len(),
{
    if args.len() == 0 {
        Seq::empty()
    } else {
        obj_prop_edits(c, mode, rename, args.drop_last()) + match args.last() {
            Expr::Object(o) => prop_edits_in(c, mode, rename, o.props@, args.len() - 1),
            _ => Seq::empty(),
        }
    }
}

/// An edit of an object property.
pub enum PropEdit {
    /// Edit the value of a key-value property.
    Value(ExprEdit),
    /// Turn a method into a key-value property holding an annotation array
    /// with these strings.
    MethodToAnnotated(Vec<String>),
}

/// The view of a property edit.
pub open spec fn prop_edit_view(e: PropEdit) -> PropEditView {
    match e {
        PropEdit::Value(ed) => PropEditView::Value(edit_view(ed)),
        PropEdit::MethodToAnnotated(s) => PropEditView::MethodToAnnotated(str_views(s@)),
    }
}

/// An edit of an argument of a call.
pub struct ArgEdit {
    pub index: usize,
    pub edit: ExprEdit,
}

/// An edit of property `prop` of the object that is argument `arg`.
pub struct PropEditAt {
    pub arg: usize,
    pub prop: usize,
    pub edit: PropEdit,
}

/// The edits of a call: of its arguments, then of the properties of its
/// object arguments.
pub struct CallEdits {
    pub args: Vec<ArgEdit>,
    pub props: Vec<PropEditAt>,
}

/// The views of argument edits.
pub open spec fn arg_edit_views(v: Seq<ArgEdit>) -> Seq<(int, EditView)> {
    v.map_values(|a: ArgEdit| (a.index as int, edit_view(a.edit)))
}

/// The views of property edits.
pub open spec fn prop_edit_views(v: Seq<PropEditAt>) -> Seq<(int, int, PropEditView)> {
    v.map_values(|p: PropEditAt| (p.arg as int, p.prop as int, prop_edit_view(p.edit)))
}

/// What the rewriting does to a class: drop its static `$inject`
/// properties, then add one with the given strings.
pub struct ClassEdit {
    pub remove_existing: bool,
    pub add: Option<Vec<String>>,
}

/// A class edit with its strings as character sequences.
pub struct ClassEditView {
    pub remove_existing: bool,
    pub add: Option<Seq<Seq<char>>>,
}

/// The view of a class edit.
pub open spec fn class_edit_view(e: ClassEdit) -> ClassEditView {
    ClassEditView {
        remove_existing: e.remove_existing,
        add: match e.add {
            Some(s) => Some(str_views(s@)),
            None => None,
        },
    }
}

/// The edit of a class with an `ngInject` request, given its parameters
/// when they are known.
pub open spec fn class_edit_for(
    mode: Mode,
    rename: Map<Seq<char>, Seq<char>>,
    params: Option<Seq<Seq<char>>>,
    has_static: bool,
) -> Option<ClassEditView> {
    match mode {
        Mode::Remove => Some(ClassEditView { remove_existing: true, add: None }),
        Mode::Add => match params {
            Some(ps) => if ps.len() > 0 && !has_static {
                Some(ClassEditView { remove_existing: false, add: Some(spec_annotation_strings(ps, rename)) })
            } else {
                None
            },
            None => None,
        },
        Mode::Rebuild => Some(ClassEditView {
            remove_existing: true,
            add: match params {
                Some(ps) => if ps.len() > 0 {
                    Some(spec_annotation_strings(ps, rename))
                } else {
                    None
                },
                None => None,
            },
        }),
    }
}

/// The edit of a class expression (or anonymous default-exported class):
/// only with an `ngInject` request, from its constructor's parameters.
pub open spec fn spec_class_expr_edit(c: ScanView, mode: Mode, rename: Map<Seq<char>, Seq<char>>, class: Class) -> Option<ClassEditView> {
    if c.explicit.contains(class.lo) {
        class_edit_for(mode, rename, Some(ctor_params_of(class.members@)), spec_class_has_static_inject(class))
    } else {
        None
    }
}

/// The edit of a class declaration: only with an `ngInject` request, from
/// the parameters recorded for its name.
pub open spec fn spec_class_decl_edit(c: ScanView, mode: Mode, rename: Map<Seq<char>, Seq<char>>, d: ClassDecl) -> Option<ClassEditView> {
    if c.explicit.contains(d.class.lo) {
        class_edit_for(
            mode,
            rename,
            if c.decl_map.contains_key(d.ident.name@) { Some(c.decl_map[d.ident.name@].params) } else { None },
            spec_class_has_static_inject(d.class),
        )
    } else {
        None
    }
}

/// The operation that a function declaration with an `ngInject` request
/// schedules.
pub open spec fn spec_fn_decl_sched(pending: Seq<OpView>, c: ScanView, mode: Mode, d: FnDecl) -> Seq<OpView> {
    let ps = param_names(d.function.params@);
    if c.explicit.contains(d.function.lo) && ps.len() > 0 && c.decl_map.contains_key(d.ident.name@) {
        spec_schedule(pending, mode, d.ident.name@, Some(d.ident.lo), ps, c.decl_map[d.ident.name@].stmt_lo)
    } else {
        pending
    }
}

/// Where the function or arrow function that initialises a variable
/// starts.
pub open spec fn init_fn_lo(d: VarDeclarator) -> Option<u32> {
    match d.init {
        Some(init) => match *init {
            Expr::Fn(f) => Some(f.function.lo),
            Expr::Arrow(a) => Some(a.lo),
            _ => None,
        },
        None => None,
    }
}

/// The parameters of the function or arrow function that initialises a
/// variable.
pub open spec fn init_fn_params(d: VarDeclarator) -> Option<Seq<Seq<char>>> {
    match d.init {
        Some(init) => match *init {
            Expr::Fn(f) => Some(param_names(f.function.params@)),
            Expr::Arrow(a) => Some(param_names(a.params@)),
            _ => None,
        },
        None => None,
    }
}

/// The operation that a variable with an `ngInject` request (on the
/// declarator or its function) schedules.
pub open spec fn spec_var_decl_sched(pending: Seq<OpView>, c: ScanView, mode: Mode, d: VarDeclarator) -> Seq<OpView> {
    let explicit = c.explicit.contains(d.lo) || (match init_fn_lo(d) {
        Some(l) => c.explicit.contains(l),
        None => false,
    });
    match d.name {
        Some(id) => match init_fn_params(d) {
            Some(ps) => if explicit && ps.len() > 0 && c.decl_map.contains_key(id.name@) {
                spec_schedule(pending, mode, id.name@, Some(id.lo), ps, c.decl_map[id.name@].stmt_lo)
            } else {
                pending
            },
            None => pending,
        },
        None => pending,
    }
}

/// The operation that `export default function name(..) {..}` with an
/// `ngInject` request schedules, after the export at `lo`.
pub open spec fn spec_default_fn_sched(pending: Seq<OpView>, c: ScanView, mode: Mode, f: FnExpr, lo: u32) -> Seq<OpView> {
    let ps = param_names(f.function.params@);
    match f.ident {
        Some(id) => if c.explicit.contains(f.function.lo) && ps.len() > 0 {
            spec_schedule(pending, mode, id.name@, Some(id.lo), ps, lo)
        } else {
            pending
        },
        None => pending,
    }
}

/// The annotation strings that wrap `export default function(..) {..}`
/// (anonymous) with an `ngInject` request, except when removing.
pub open spec fn spec_default_fn_wrap(c: ScanView, mode: Mode, rename: Map<Seq<char>, Seq<char>>, f: FnExpr) -> Option<Seq<Seq<char>>> {
    let ps = param_names(f.function.params@);
    if f.ident is None && c.explicit.contains(f.function.lo) && ps.len() > 0 && mode != Mode::Remove {
        Some(spec_annotation_strings(ps, rename))
    } else {
        None
    }
}

/// The edit of an expression statement `left = right` whose right side is
/// a suspect.
pub open spec fn spec_expr_stmt_edit(c: ScanView, mode: Mode, rename: Map<Seq<char>, Seq<char>>, e: Expr) -> Option<EditView> {
    match e {
        Expr::Assign(a) => if spec_is_suspect(c, a.right.spec_lo()) {
            match spec_params_for(c, *a.right) {
                Some(ps) => if ps.len() > 0 {
                    spec_transform(mode, *a.right, spec_annotation_strings(ps, rename))
                } else {
                    None
                },
                None => None,
            }
        } else {
            None
        },
        _ => None,
    }
}


/// The first suspect recorded at `lo`.
fn first_suspect_ref(ctx: &ScanContext, lo: u32) -> (r: Option<&crate::scan::SuspectEntry>)
    ensures
        match r {
            Some(e) => first_suspect_at(ctx@.suspects, lo) == Some(e@),
            None => first_suspect_at(ctx@.suspects, lo) is None,
        },
{
    let ghost ss = ctx@.suspects;
    let mut i: usize = 0;
    assert(ss.skip(0) =~= ss);
    while i < ctx.suspects.len()
        invariant
            ss == ctx@.suspects,
            ss.len() == ctx.suspects@.len(),
            i <= ss.len(),
            first_suspect_at(ss, lo) == first_suspect_at(ss.skip(i as int), lo),
        decreases ss.len() - i,
    {
        assert(ss.skip(i as int).drop_first() =~= ss.skip(i + 1));
        assert(ss.skip(i as int)[0] == ss[i as int]);
        if ctx.suspects[i].target_lo == lo {
            return Some(&ctx.suspects[i]);
        }
        i = i + 1;
    }
    None
}

impl NgAnnotateVisitor {
    /// Takes the scan and schedules the `$inject` operations of explicit
    /// requests that refer to declarations.
    pub fn start(&mut self, ctx: ScanContext)
        ensures
            keeps_unique(old(self).pending(), final(self).pending()),
            final(self).scanned() == Some(ctx@),
            final(self).pending() == explicit_sched(ctx@, old(self).spec_mode(), old(self).pending(), ctx@.explicit),
            final(self).spec_mode() == old(self).spec_mode(),
            final(self).rename() == old(self).rename(),
            final(self).pattern() == old(self).pattern(),
            final(self).adf() == old(self).adf(),
    {
        let los = ctx.ng_inject_explicit.to_vec();
        let mut i: usize = 0;
        while i < los.len()
            invariant
                los@ == ctx@.explicit,
                i <= los@.len(),
                self.pending() == explicit_sched(ctx@, old(self).spec_mode(), old(self).pending(), los@.take(i as int)),
                keeps_unique(old(self).pending(), self.pending()),
                self.spec_mode() == old(self).spec_mode(),
                self.rename() == old(self).rename(),
                self.pattern() == old(self).pattern(),
                self.adf() == old(self).adf(),
            decreases los@.len() - i,
        {
            let lo = los[i];
            assert(los@.take(i + 1).drop_last() =~= los@.take(i as int));
            assert(los@.take(i + 1).last() == lo);
            if let Some(s) = first_suspect_ref(&ctx, lo) {
                if let Some(rn) = &s.ref_name {
                    if let Some(d) = ctx.decl_map.get(rn.as_str()) {
                        let params = crate::transforms::clone_strings(&d.params);
                        self.schedule_inject(rn.clone(), None, params, d.stmt_lo);
                    }
                }
            }
            i = i + 1;
        }
        assert(los@.take(los@.len() as int) =~= los@);
        self.scan = Some(ctx);
    }

    /// The edits of a chained call's arguments and object arguments; an
    /// identifier argument that names a declaration schedules a `$inject`
    /// operation instead. Nothing happens to calls outside chains.
    pub fn call_expr_edits(&mut self, call: &crate::ast::CallExpr) -> (r: CallEdits)
        requires
            old(self).scanned() is Some,
        ensures
            keeps_unique(old(self).pending(), final(self).pending()),
            final(self).same_settings(old(self)),
            !old(self).ctx().chained.contains(call.lo) ==> final(self).pending() == old(self).pending()
                && r.args@.len() == 0 && r.props@.len() == 0,
            old(self).ctx().chained.contains(call.lo) ==> {
                &&& final(self).pending() == sched_args(old(self).pending(), old(self).ctx(), old(self).spec_mode(), old(self).rename(), call.args@)
                &&& arg_edit_views(r.args@) == arg_edits(old(self).ctx(), old(self).spec_mode(), old(self).rename(), call.args@)
                &&& prop_edit_views(r.props@) == obj_prop_edits(old(self).ctx(), old(self).spec_mode(), old(self).rename(), call.args@)
            },
    {
        let mut edits = CallEdits { args: Vec::new(), props: Vec::new() };
        let chained = match &self.scan {
            Some(c) => c.chained.contains(call.lo),
            None => false,
        };
        if !chained {
            return edits;
        }
        let ghost c = self.ctx();
        let ghost mode = self.spec_mode();
        let ghost rename = self.rename();
        let mut i: usize = 0;
        while i < call.args.len()
            invariant
                c == old(self).ctx(),
                mode == old(self).spec_mode(),
                rename == old(self).rename(),
                self.same_settings(old(self)),
                self.scanned() is Some,
                keeps_unique(old(self).pending(), self.pending()),
                i <= call.args@.len(),
                self.pending() == sched_args(old(self).pending(), c, mode, rename, call.args@.take(i as int)),
                arg_edit_views(edits.args@) == arg_edits(c, mode, rename, call.args@.take(i as int)),
                edits.props@.len() == 0,
            decreases call.args@.len() - i,
        {
            let arg = &call.args[i];
            proof {
                assert(call.args@.take(i + 1).drop_last() =~= call.args@.take(i as int));
                assert(call.args@.take(i + 1).last() == *arg);
            }
            let arg_lo = expr_span_lo(arg);
            if self.is_suspect(arg_lo) {
                if let Expr::Ident(id) = arg {
                    let decl_opt: Option<DeclInfo> = match &self.scan {
                        Some(sc) => match sc.decl_map.get(id.name.as_str()) {
                            Some(d) => Some(d.duplicate()),
                            None => None,
                        },
                        None => None,
                    };
                    if let Some(decl_info) = decl_opt {
                        if decl_info.params.len() > 0 {
                            self.schedule_inject(id.name.clone(), Some(id.lo), decl_info.params, decl_info.stmt_lo);
                        }
                    }
                } else {
                    match self.get_params_for_expr(arg) {
                        Some(params) => {
                            if params.len() > 0 {
                                if let Some(edit) = self.transform_expr(arg, &params) {
                                    let ghost before = edits.args@;
                                    edits.args.push(ArgEdit { index: i, edit });
                                    assert(arg_edit_views(edits.args@) =~= arg_edit_views(before).push(
                                        (i as int, edit_view(edit)),
                                    ));
                                }
                            }
                        },
                        None => {},
                    }
                }
            }
            i = i + 1;
        }
        assert(call.args@.take(call.args@.len() as int) =~= call.args@);
        let mut k: usize = 0;
        while k < call.args.len()
            invariant
                c == old(self).ctx(),
                mode == old(self).spec_mode(),
                rename == old(self).rename(),
                self.same_settings(old(self)),
                self.scanned() is Some,
                self.pending() == sched_args(old(self).pending(), c, mode, rename, call.args@),
                arg_edit_views(edits.args@) == arg_edits(c, mode, rename, call.args@),
                k <= call.args@.len(),
                prop_edit_views(edits.props@) == obj_prop_edits(c, mode, rename, call.args@.take(k as int)),
            decreases call.args@.len() - k,
        {
            proof {
                assert(call.args@.take(k + 1).drop_last() =~= call.args@.take(k as int));
                assert(call.args@.take(k + 1).last() == call.args@[k as int]);
            }
            if let Expr::Object(obj_expr) = &call.args[k] {
                let mut more = self.prop_edits_of(&obj_expr.props, k);
                let ghost before = edits.props@;
                let ghost added = more@;
                edits.props.append(&mut more);
                assert(prop_edit_views(edits.props@) =~= prop_edit_views(before) + prop_edit_views(added));
            } else {
                assert(obj_prop_edits(c, mode, rename, call.args@.take(k + 1)) =~= obj_prop_edits(
                    c,
                    mode,
                    rename,
                    call.args@.take(k as int),
                ));
            }
            k = k + 1;
        }
        assert(call.args@.take(call.args@.len() as int) =~= call.args@);
        edits
    }

    /// The edit of property `idx` of an object; none for an index past its
    /// end.
    pub fn transform_object_prop_at(&self, props: &Vec<PropOrSpread>, idx: usize) -> (r: Option<PropEdit>)
        requires
            self.scanned() is Some,
        ensures
            idx >= props@.len() ==> r is None,
            idx < props@.len() ==> match r {
                Some(e) => spec_prop_edit(self.ctx(), self.spec_mode(), self.rename(), props@[idx as int]) == Some(prop_edit_view(e)),
                None => spec_prop_edit(self.ctx(), self.spec_mode(), self.rename(), props@[idx as int]) is None,
            },
    {
        if idx >= props.len() {
            return None;
        }
        match &props[idx] {
            PropOrSpread::KeyValue(kv) => {
                if !self.is_suspect(expr_span_lo(&kv.value)) {
                    return None;
                }
                let params = match self.get_params_for_expr(&kv.value) {
                    Some(p) => p,
                    None => {
                        return None;
                    },
                };
                if params.len() == 0 {
                    return None;
                }
                match self.transform_expr(&kv.value, &params) {
                    Some(e) => Some(PropEdit::Value(e)),
                    None => None,
                }
            },
            PropOrSpread::Method(m) => {
                if !self.is_suspect(m.function.lo) {
                    return None;
                }
                if self.mode == Mode::Remove {
                    return None;
                }
                let params = extract_params(&m.function.params);
                if params.len() == 0 {
                    return None;
                }
                Some(PropEdit::MethodToAnnotated(build_annotation_strings(&params, &self.rename_map)))
            },
            PropOrSpread::Other => None,
        }
    }

    /// The edits of the properties `props` of the object that is argument
    /// `arg`, with their indices.
    fn prop_edits_of(&self, props: &Vec<PropOrSpread>, arg: usize) -> (r: Vec<PropEditAt>)
        requires
            self.scanned() is Some,
        ensures
            prop_edit_views(r@) == prop_edits_in(self.ctx(), self.spec_mode(), self.rename(), props@, arg as int),
    {
        let mut r: Vec<PropEditAt> = Vec::new();
        let mut idx: usize = 0;
        while idx < props.len()
            invariant
                self.scanned() is Some,
                idx <= props@.len(),
                prop_edit_views(r@) == prop_edits_in(self.ctx(), self.spec_mode(), self.rename(), props@.take(idx as int), arg as int),
            decreases props@.len() - idx,
        {
            proof {
                assert(props@.take(idx + 1).drop_last() =~= props@.take(idx as int));
                assert(props@.take(idx + 1).last() == props@[idx as int]);
            }
            if let Some(e) = self.transform_object_prop_at(props, idx) {
                let ghost before = r@;
                r.push(PropEditAt { arg, prop: idx, edit: e });
                assert(prop_edit_views(r@) =~= prop_edit_views(before).push((arg as int, idx as int, prop_edit_view(e))));
            }
            idx = idx + 1;
        }
        assert(props@.take(props@.len() as int) =~= props@);
        r
    }

    /// The edits of an object literal's properties (`arg` is 0 in each).
    pub fn object_lit_edits(&self, obj: &ObjectLit) -> (r: Vec<PropEditAt>)
        requires
            self.scanned() is Some,
        ensures
            prop_edit_views(r@) == prop_edits_in(self.ctx(), self.spec_mode(), self.rename(), obj.props@, 0),
    {
        self.prop_edits_of(&obj.props, 0)
    }

    /// The edit of the right side of an assignment statement.
    pub fn expr_stmt_edit(&self, expr: &Expr) -> (r: Option<ExprEdit>)
        requires
            self.scanned() is Some,
        ensures
            match r {
                Some(e) => spec_expr_stmt_edit(self.ctx(), self.spec_mode(), self.rename(), *expr) == Some(edit_view(e)),
                None => spec_expr_stmt_edit(self.ctx(), self.spec_mode(), self.rename(), *expr) is None,
            },
    {
        if let Expr::Assign(assign) = expr {
            if self.is_suspect(expr_span_lo(&assign.right)) {
                if let Some(params) = self.get_params_for_expr(&assign.right) {
                    if params.len() > 0 {
                        return self.transform_expr(&assign.right, &params);
                    }
                }
            }
        }
        None
    }

    /// A function declaration with an `ngInject` request schedules a
    /// `$inject` operation.
    pub fn fn_decl(&mut self, fn_decl: &FnDecl)
        requires
            old(self).scanned() is Some,
        ensures
            keeps_unique(old(self).pending(), final(self).pending()),
            final(self).same_settings(old(self)),
            final(self).pending() == spec_fn_decl_sched(old(self).pending(), old(self).ctx(), old(self).spec_mode(), *fn_decl),
    {
        if self.is_ng_inject_explicit(fn_decl.function.lo) {
            let params = extract_params(&fn_decl.function.params);
            if params.len() > 0 {
                let stmt_lo: Option<u32> = match &self.scan {
                    Some(sc) => match sc.decl_map.get(fn_decl.ident.name.as_str()) {
                        Some(d) => Some(d.stmt_lo),
                        None => None,
                    },
                    None => None,
                };
                if let Some(lo) = stmt_lo {
                    self.schedule_inject(fn_decl.ident.name.clone(), Some(fn_decl.ident.lo), params, lo);
                }
            }
        }
    }

    /// A variable with an `ngInject` request (on the declarator or on its
    /// function) schedules a `$inject` operation.
    pub fn var_declarator(&mut self, decl: &VarDeclarator)
        requires
            old(self).scanned() is Some,
        ensures
            keeps_unique(old(self).pending(), final(self).pending()),
            final(self).same_settings(old(self)),
            final(self).pending() == spec_var_decl_sched(old(self).pending(), old(self).ctx(), old(self).spec_mode(), *decl),
    {
        let init_lo: Option<u32> = match &decl.init {
            Some(init) => match &**init {
                Expr::Fn(f) => Some(f.function.lo),
                Expr::Arrow(a) => Some(a.lo),
                _ => None,
            },
            None => None,
        };
        let is_explicit = self.is_ng_inject_explicit(decl.lo) || match init_lo {
            Some(lo) => self.is_ng_inject_explicit(lo),
            None => false,
        };
        if is_explicit {
            if let Some(id) = &decl.name {
                let params_opt: Option<Vec<String>> = match &decl.init {
                    Some(init) => match &**init {
                        Expr::Fn(f) => Some(extract_params(&f.function.params)),
                        Expr::Arrow(a) => Some(extract_pats_params(&a.params)),
                        _ => None,
                    },
                    None => None,
                };
                if let Some(params) = params_opt {
                    if params.len() > 0 {
                        let stmt_lo: Option<u32> = match &self.scan {
                            Some(sc) => match sc.decl_map.get(id.name.as_str()) {
                                Some(d) => Some(d.stmt_lo),
                                None => None,
                            },
                            None => None,
                        };
                        if let Some(lo) = stmt_lo {
                            self.schedule_inject(id.name.clone(), Some(id.lo), params, lo);
                        }
                    }
                }
            }
        }
    }

    /// The class edit for a class with an `ngInject` request.
    fn class_edit(&self, params: Option<Vec<String>>, has_static: bool) -> (r: Option<ClassEdit>)
        ensures
            match r {
                Some(e) => class_edit_for(self.spec_mode(), self.rename(), match params {
                    Some(p) => Some(str_views(p@)),
                    None => None,
                }, has_static) == Some(class_edit_view(e)),
                None => class_edit_for(self.spec_mode(), self.rename(), match params {
                    Some(p) => Some(str_views(p@)),
                    None => None,
                }, has_static) is None,
            },
    {
        match self.mode {
            Mode::Remove => Some(ClassEdit { remove_existing: true, add: None }),
            Mode::Add => match params {
                Some(ps) => if ps.len() > 0 && !has_static {
                    Some(ClassEdit { remove_existing: false, add: Some(build_annotation_strings(&ps, &self.rename_map)) })
                } else {
                    None
                },
                None => None,
            },
            Mode::Rebuild => {
                let add = match params {
                    Some(ps) => if ps.len() > 0 {
                        Some(build_annotation_strings(&ps, &self.rename_map))
                    } else {
                        None
                    },
                    None => None,
                };
                Some(ClassEdit { remove_existing: true, add })
            },
        }
    }

    /// The edit of a class expression or anonymous default-exported class.
    pub fn class_expr_edit(&self, class: &Class) -> (r: Option<ClassEdit>)
        requires
            self.scanned() is Some,
        ensures
            match r {
                Some(e) => spec_class_expr_edit(self.ctx(), self.spec_mode(), self.rename(), *class) == Some(class_edit_view(e)),
                None => spec_class_expr_edit(self.ctx(), self.spec_mode(), self.rename(), *class) is None,
            },
    {
        if !self.is_ng_inject_explicit(class.lo) {
            return None;
        }
        let params = extract_class_constructor_params(class);
        let has_static = class_has_static_inject(class);
        self.class_edit(Some(params), has_static)
    }

    /// The edit of a class declaration.
    pub fn class_decl_edit(&self, class_decl: &ClassDecl) -> (r: Option<ClassEdit>)
        requires
            self.scanned() is Some,
        ensures
            match r {
                Some(e) => spec_class_decl_edit(self.ctx(), self.spec_mode(), self.rename(), *class_decl) == Some(class_edit_view(e)),
                None => spec_class_decl_edit(self.ctx(), self.spec_mode(), self.rename(), *class_decl) is None,
            },
    {
        if !self.is_ng_inject_explicit(class_decl.class.lo) {
            return None;
        }
        let params: Option<Vec<String>> = match &self.scan {
            Some(sc) => match sc.decl_map.get(class_decl.ident.name.as_str()) {
                Some(d) => Some(crate::transforms::clone_strings(&d.params)),
                None => None,
            },
            None => None,
        };
        let has_static = class_has_static_inject(&class_decl.class);
        self.class_edit(params, has_static)
    }

    /// `export default function name(..) {..}` with an `ngInject` request
    /// schedules a `$inject` operation after the export at `lo`;
    /// `export default class {..}` gets the edit of a class expression.
    pub fn export_default_decl(&mut self, decl: &DefaultDecl, lo: u32) -> (r: Option<ClassEdit>)
        requires
            old(self).scanned() is Some,
        ensures
            keeps_unique(old(self).pending(), final(self).pending()),
            final(self).same_settings(old(self)),
            match *decl {
                DefaultDecl::Fn(f) => final(self).pending() == spec_default_fn_sched(old(self).pending(), old(self).ctx(), old(self).spec_mode(), f, lo)
                    && r is None,
                DefaultDecl::Class(ce) => final(self).pending() == old(self).pending() && match r {
                    Some(e) => spec_class_expr_edit(old(self).ctx(), old(self).spec_mode(), old(self).rename(), ce.class) == Some(class_edit_view(e)),
                    None => spec_class_expr_edit(old(self).ctx(), old(self).spec_mode(), old(self).rename(), ce.class) is None,
                },
                DefaultDecl::Other => final(self).pending() == old(self).pending() && r is None,
            },
    {
        match decl {
            DefaultDecl::Fn(fn_expr) => {
                if self.is_ng_inject_explicit(fn_expr.function.lo) {
                    if let Some(ident) = &fn_expr.ident {
                        let params = extract_params(&fn_expr.function.params);
                        if params.len() > 0 {
                            self.schedule_inject(ident.name.clone(), Some(ident.lo), params, lo);
                        }
                    }
                }
                None
            },
            DefaultDecl::Class(class_expr) => self.class_expr_edit(&class_expr.class),
            DefaultDecl::Other => None,
        }
    }

    /// The annotation strings that wrap an anonymous default-exported
    /// function with an `ngInject` request.
    pub fn default_fn_wrap(&self, fn_expr: &FnExpr) -> (r: Option<Vec<String>>)
        requires
            self.scanned() is Some,
        ensures
            match r {
                Some(v) => spec_default_fn_wrap(self.ctx(), self.spec_mode(), self.rename(), *fn_expr) == Some(str_views(v@)),
                None => spec_default_fn_wrap(self.ctx(), self.spec_mode(), self.rename(), *fn_expr) is None,
            },
    {
        if fn_expr.ident.is_some() {
            return None;
        }
        if !self.is_ng_inject_explicit(fn_expr.function.lo) {
            return None;
        }
        let params = extract_params(&fn_expr.function.params);
        if params.len() == 0 {
            return None;
        }
        match self.mode {
            Mode::Remove => None,
            _ => Some(build_annotation_strings(&params, &self.rename_map)),
        }
    }
}


/// A `name.$inject = ["s0", ..]` statement to insert.
pub struct InjectStmt {
    pub name: String,
    /// Where the identifier to attach it to starts, when known.
    pub ident_lo: Option<u32>,
    pub strings: Vec<String>,
}

/// One place of a rebuilt statement list.
pub enum Slot {
    /// The statement at this index of the old list.
    Keep(usize),
    /// A new `$inject` statement.
    Insert(InjectStmt),
}

/// A place of a statement list with its strings as character sequences.
pub enum SlotView {
    Keep(int),
    Insert(Seq<char>, Option<u32>, Seq<Seq<char>>),
}

/// The view of a place.
pub open spec fn slot_view(s: Slot) -> SlotView {
    match s {
        Slot::Keep(j) => SlotView::Keep(j as int),
        Slot::Insert(i) => SlotView::Insert(i.name@, i.ident_lo, str_views(i.strings@)),
    }
}

/// The views of a list of places.
pub open spec fn slot_views(v: Seq<Slot>) -> Seq<SlotView> {
    v.map_values(|s: Slot| slot_view(s))
}

/// The indices of the `name.$inject = ..` statements, in order.
pub open spec fn inject_indices(stmts: Seq<Stmt>, name: Seq<char>) -> Seq<int>
    decreases stmts.len(),
{
    if stmts.len() == 0 {
        Seq::empty()
    } else {
        let p = inject_indices(stmts.drop_last(), name);
        if crate::transforms::spec_is_inject_stmt(stmts.last(), name) {
            p.push(stmts.len() - 1)
        } else {
            p
        }
    }
}

/// The statement that an operation inserts.
pub open spec fn op_slot(op: OpView, rename: Map<Seq<char>, Seq<char>>) -> SlotView {
    SlotView::Insert(op.name, op.ident_lo, spec_annotation_strings(op.params, rename))
}

/// What an operation for the declaration at index `i` does: the indices it
/// removes and the statements it inserts (each at an index of the old list).
/// Adding inserts after the declaration unless a `$inject` statement for the
/// name exists; removing removes all of them; rebuilding replaces the first
/// one, or inserts after the declaration when there is none.
pub open spec fn op_plan(stmts: Seq<Stmt>, i: int, op: OpView, rename: Map<Seq<char>, Seq<char>>) -> (Seq<int>, Seq<(int, SlotView)>) {
    let js = inject_indices(stmts, op.name);
    let slot = op_slot(op, rename);
    match op.op {
        InjectOpKind::Add => if js.len() == 0 {
            (Seq::empty(), seq![(i + 1, slot)])
        } else {
            (Seq::empty(), Seq::empty())
        },
        InjectOpKind::Remove => (js, Seq::empty()),
        InjectOpKind::Rebuild => if js.len() > 0 {
            (seq![js[0]], seq![(js[0], slot)])
        } else {
            (Seq::empty(), seq![(i + 1, slot)])
        },
    }
}

/// What the operations `ops` for the declaration at index `i` do, in order.
pub open spec fn ops_plan(stmts: Seq<Stmt>, i: int, ops: Seq<OpView>, rename: Map<Seq<char>, Seq<char>>) -> (Seq<int>, Seq<(int, SlotView)>)
    decreases ops.len(),
{
    if ops.len() == 0 {
        (Seq::empty(), Seq::empty())
    } else {
        let prev = ops_plan(stmts, i, ops.drop_last(), rename);
        let last = op_plan(stmts, i, ops.last(), rename);
        (prev.0 + last.0, prev.1 + last.1)
    }
}

/// The pending operations for the statement at `lo`, in order.
pub open spec fn ops_at(pending: Seq<OpView>, lo: u32) -> Seq<OpView>
    decreases pending.len(),
{
    if pending.len() == 0 {
        Seq::empty()
    } else {
        let p = ops_at(pending.drop_last(), lo);
        if pending.last().stmt_lo == lo {
            p.push(pending.last())
        } else {
            p
        }
    }
}

/// What the pending operations do to the first `k` statements.
pub open spec fn plan_upto(stmts: Seq<Stmt>, pending: Seq<OpView>, rename: Map<Seq<char>, Seq<char>>, k: int) -> (Seq<int>, Seq<(int, SlotView)>)
    decreases k,
{
    if k <= 0 {
        (Seq::empty(), Seq::empty())
    } else {
        let prev = plan_upto(stmts, pending, rename, k - 1);
        let here = ops_plan(stmts, k - 1, ops_at(pending, stmts[k - 1].lo), rename);
        (prev.0 + here.0, prev.1 + here.1)
    }
}

/// The indices below `n` that are not removed, in order, as places.
pub open spec fn kept_slots(n: int, rem: Seq<int>) -> Seq<SlotView>
    decreases n,
{
    if n <= 0 {
        Seq::empty()
    } else {
        let p = kept_slots(n - 1, rem);
        if rem.contains(n - 1) {
            p
        } else {
            p.push(SlotView::Keep(n - 1))
        }
    }
}

/// Inserts `x` after every element whose index is at most that of `x`.
pub open spec fn sorted_insert(s: Seq<(int, SlotView)>, x: (int, SlotView)) -> Seq<(int, SlotView)>
    decreases s.len(),
{
    if s.len() == 0 {
        seq![x]
    } else if s.last().0 <= x.0 {
        s.push(x)
    } else {
        sorted_insert(s.drop_last(), x).push(s.last())
    }
}

/// `s` sorted by index, keeping the order of equal indices.
pub open spec fn stable_sort(s: Seq<(int, SlotView)>) -> Seq<(int, SlotView)>
    decreases s.len(),
{
    if s.len() == 0 {
        Seq::empty()
    } else {
        sorted_insert(stable_sort(s.drop_last()), s.last())
    }
}

/// The insertions made from the last to the first, each at its index or
/// at the end of the list when the list is shorter.
pub open spec fn apply_inserts(base: Seq<SlotView>, ins: Seq<(int, SlotView)>) -> Seq<SlotView>
    decreases ins.len(),
{
    if ins.len() == 0 {
        base
    } else {
        let x = ins.last();
        let pos = if x.0 < 0 { 0 } else if x.0 < base.len() { x.0 } else { base.len() as int };
        apply_inserts(base.insert(pos, x.1), ins.drop_last())
    }
}

/// The rebuilt statement list: the removed statements dropped, then the
/// new statements inserted, sorted by their index and inserted from the
/// last, each at its index of the old list, or at the end.
pub open spec fn spec_layout(stmts: Seq<Stmt>, pending: Seq<OpView>, rename: Map<Seq<char>, Seq<char>>) -> Seq<SlotView> {
    let plan = plan_upto(stmts, pending, rename, stmts.len() as int);
    apply_inserts(kept_slots(stmts.len() as int, plan.0), stable_sort(plan.1))
}

/// Some statement of the list starts at `lo`.
pub open spec fn has_stmt_at(stmts: Seq<Stmt>, lo: u32) -> bool {
    exists|j: int| 0 <= j < stmts.len() && #[trigger] stmts[j].lo == lo
}

/// The operations that stay pending: those whose statement is not in the
/// list.
pub open spec fn remaining_ops(pending: Seq<OpView>, stmts: Seq<Stmt>) -> Seq<OpView>
    decreases pending.len(),
{
    if pending.len() == 0 {
        Seq::empty()
    } else {
        let p = remaining_ops(pending.drop_last(), stmts);
        if has_stmt_at(stmts, pending.last().stmt_lo) {
            p
        } else {
            p.push(pending.last())
        }
    }
}


/// Every operation that stays pending was pending before.
proof fn lemma_remaining_from(pending: Seq<OpView>, stmts: Seq<Stmt>)
    ensures
        forall|k: int| 0 <= k < remaining_ops(pending, stmts).len() ==> exists|q: int|
            0 <= q < pending.len() && pending[q] == #[trigger] remaining_ops(pending, stmts)[k],
    decreases pending.len(),
{
    if pending.len() > 0 {
        lemma_remaining_from(pending.drop_last(), stmts);
        let prev = remaining_ops(pending.drop_last(), stmts);
        assert forall|k: int| 0 <= k < remaining_ops(pending, stmts).len() implies exists|q: int|
            0 <= q < pending.len() && pending[q] == #[trigger] remaining_ops(pending, stmts)[k] by {
            if k < prev.len() {
                let q = choose|q: int| 0 <= q < pending.drop_last().len() && pending.drop_last()[q] == prev[k];
                assert(pending[q] == remaining_ops(pending, stmts)[k]);
            } else {
                assert(pending[pending.len() - 1] == remaining_ops(pending, stmts)[k]);
            }
        }
    }
}

/// Dropping the done operations keeps at most one pending operation per
/// name and statement.
proof fn lemma_remaining_unique(pending: Seq<OpView>, stmts: Seq<Stmt>)
    ensures
        keeps_unique(pending, remaining_ops(pending, stmts)),
    decreases pending.len(),
{
    if pending.len() > 0 && ops_unique(pending) {
        let init = pending.drop_last();
        assert(ops_unique(init));
        lemma_remaining_unique(init, stmts);
        lemma_remaining_from(init, stmts);
        let prev = remaining_ops(init, stmts);
        let next = remaining_ops(pending, stmts);
        assert forall|i: int, j: int| 0 <= i < j < next.len() implies !(next[i].name == next[j].name
            && next[i].stmt_lo == next[j].stmt_lo) by {
            if j >= prev.len() {
                let q = choose|q: int| 0 <= q < init.len() && init[q] == #[trigger] prev[i];
                assert(next[i] == prev[i]);
                assert(pending[q] == next[i]);
                assert(next[j] == pending[pending.len() - 1]);
            } else {
                assert(next[i] == prev[i] && next[j] == prev[j]);
            }
        }
    }
}

/// Indices as integers.
pub open spec fn idx_view(v: Seq<usize>) -> Seq<int> {
    v.map_values(|j: usize| j as int)
}

/// Planned insertions as views.
pub open spec fn ins_view(v: Seq<(usize, Slot)>) -> Seq<(int, SlotView)> {
    v.map_values(|p: (usize, Slot)| (p.0 as int, slot_view(p.1)))
}

/// The indices of the `name.$inject = ..` statements.
fn inject_indices_of(stmts: &Vec<Stmt>, name: &str) -> (r: Vec<usize>)
    ensures
        idx_view(r@) == inject_indices(stmts@, name@),
        forall|k: int| 0 <= k < r@.len() ==> r@[k] < stmts@.len(),
{
    let mut r: Vec<usize> = Vec::new();
    let mut j: usize = 0;
    while j < stmts.len()
        invariant
            j <= stmts@.len(),
            idx_view(r@) == inject_indices(stmts@.take(j as int), name@),
            forall|k: int| 0 <= k < r@.len() ==> r@[k] < j,
        decreases stmts@.len() - j,
    {
        proof {
            assert(stmts@.take(j + 1).drop_last() =~= stmts@.take(j as int));
            assert(stmts@.take(j + 1).last() == stmts@[j as int]);
        }
        if crate::transforms::is_inject_stmt(&stmts[j], name) {
            let ghost before = r@;
            r.push(j);
            assert(idx_view(r@) =~= idx_view(before).push(j as int));
        }
        j = j + 1;
    }
    assert(stmts@.take(stmts@.len() as int) =~= stmts@);
    r
}

/// Sorting by index: `x` goes at `p`.
proof fn lemma_sorted_insert_at(s: Seq<(int, SlotView)>, x: (int, SlotView), p: int)
    requires
        0 <= p <= s.len(),
        p == 0 || s[p - 1].0 <= x.0,
        forall|q: int| p <= q < s.len() ==> s[q].0 > x.0,
    ensures
        sorted_insert(s, x) == s.insert(p, x),
    decreases s.len(),
{
    if s.len() == 0 {
        assert(s.insert(p, x) =~= seq![x]);
    } else if s.last().0 <= x.0 {
        assert(p == s.len());
        assert(s.insert(p, x) =~= s.push(x));
    } else {
        lemma_sorted_insert_at(s.drop_last(), x, p);
        assert(s.drop_last().insert(p, x).push(s.last()) =~= s.insert(p, x));
    }
}

/// The insertions sorted by index, keeping the order of equal indices.
fn sort_inserts(ins: Vec<(usize, Slot)>) -> (r: Vec<(usize, Slot)>)
    ensures
        ins_view(r@) == stable_sort(ins_view(ins@)),
{
    let ghost all = ins_view(ins@);
    let mut rest = ins;
    let total = rest.len();
    let mut sorted: Vec<(usize, Slot)> = Vec::new();
    let mut k: usize = 0;
    while rest.len() > 0
        invariant
            all.len() == total,
            all.len() == k + rest@.len(),
            ins_view(rest@) == all.skip(k as int),
            ins_view(sorted@) == stable_sort(all.take(k as int)),
        decreases rest@.len(),
    {
        let ghost old_rest = rest@;
        let x = rest.remove(0);
        proof {
            assert(old_rest[0] == x);
            assert(ins_view(old_rest)[0] == (x.0 as int, slot_view(x.1)));
            assert(all.skip(k as int)[0] == all[k as int]);
            assert(rest@ =~= old_rest.subrange(1, old_rest.len() as int));
            assert forall|t: int| 0 <= t < rest@.len() implies ins_view(rest@)[t] == all.skip(k + 1)[t] by {
                assert(ins_view(old_rest)[t + 1] == all.skip(k as int)[t + 1]);
            }
            assert(ins_view(rest@) =~= all.skip(k + 1));
            assert(all.take(k + 1).drop_last() =~= all.take(k as int));
            assert(all.take(k + 1).last() == (x.0 as int, slot_view(x.1)));
        }
        let mut p = sorted.len();
        while p > 0 && sorted[p - 1].0 > x.0
            invariant
                p <= sorted@.len(),
                forall|q: int| p <= q < sorted@.len() ==> sorted@[q].0 > x.0,
            decreases p,
        {
            p = p - 1;
        }
        let ghost before = ins_view(sorted@);
        let ghost xv = (x.0 as int, slot_view(x.1));
        sorted.insert(p, x);
        proof {
            lemma_sorted_insert_at(before, xv, p as int);
            assert(ins_view(sorted@) =~= before.insert(p as int, xv));
        }
        k = k + 1;
    }
    proof {
        assert(all.take(k as int) =~= all);
    }
    sorted
}

/// A copy of a slot's statement for a pending operation.
fn make_slot(op: &PendingInjectOp, rename_map: &RenameMap) -> (r: Slot)
    ensures
        slot_view(r) == op_slot(op@, rename_map@),
{
    Slot::Insert(InjectStmt {
        name: op.name.clone(),
        ident_lo: op.ident_lo,
        strings: build_annotation_strings(&op.params, rename_map),
    })
}

/// Plans one operation for the declaration at index `i`.
fn plan_op(
    stmts: &Vec<Stmt>,
    i: usize,
    op: &PendingInjectOp,
    rename_map: &RenameMap,
    rem: &mut Vec<usize>,
    ins: &mut Vec<(usize, Slot)>,
)
    requires
        i < stmts@.len(),
        forall|k: int| 0 <= k < old(rem)@.len() ==> old(rem)@[k] < stmts@.len(),
        forall|k: int| 0 <= k < old(ins)@.len() ==> old(ins)@[k].0 <= stmts@.len(),
    ensures
        idx_view(final(rem)@) == idx_view(old(rem)@) + op_plan(stmts@, i as int, op@, rename_map@).0,
        ins_view(final(ins)@) == ins_view(old(ins)@) + op_plan(stmts@, i as int, op@, rename_map@).1,
        forall|k: int| 0 <= k < final(rem)@.len() ==> final(rem)@[k] < stmts@.len(),
        forall|k: int| 0 <= k < final(ins)@.len() ==> final(ins)@[k].0 <= stmts@.len(),
{
    let n = stmts.len();
    let js = inject_indices_of(stmts, op.name.as_str());
    let ghost r0 = idx_view(rem@);
    let ghost n0 = ins_view(ins@);
    match op.op {
        InjectOpKind::Add => {
            if js.len() == 0 {
                let slot = make_slot(op, rename_map);
                let ghost sv = slot_view(slot);
                ins.push((i + 1, slot));
                assert(ins_view(ins@) =~= n0 + seq![((i + 1) as int, sv)]);
            } else {
                assert(ins_view(ins@) =~= n0 + Seq::<(int, SlotView)>::empty());
            }
            assert(idx_view(rem@) =~= r0 + Seq::<int>::empty());
        },
        InjectOpKind::Remove => {
            let mut k: usize = 0;
            while k < js.len()
                invariant
                    k <= js@.len(),
                    idx_view(rem@) == r0 + idx_view(js@).take(k as int),
                    forall|q: int| 0 <= q < js@.len() ==> js@[q] < stmts@.len(),
                    forall|q: int| 0 <= q < rem@.len() ==> rem@[q] < stmts@.len(),
                decreases js@.len() - k,
            {
                let ghost before = idx_view(rem@);
                rem.push(js[k]);
                assert(idx_view(rem@) =~= before.push(js@[k as int] as int));
                assert(idx_view(js@).take(k + 1) =~= idx_view(js@).take(k as int).push(js@[k as int] as int));
                k = k + 1;
            }
            assert(idx_view(js@).take(js@.len() as int) =~= idx_view(js@));
            assert(ins_view(ins@) =~= n0 + Seq::<(int, SlotView)>::empty());
        },
        InjectOpKind::Rebuild => {
            if js.len() > 0 {
                let j = js[0];
                rem.push(j);
                assert(idx_view(rem@) =~= r0 + seq![j as int]);
                let slot = make_slot(op, rename_map);
                let ghost sv = slot_view(slot);
                ins.push((j, slot));
                assert(ins_view(ins@) =~= n0 + seq![(j as int, sv)]);
            } else {
                let slot = make_slot(op, rename_map);
                let ghost sv = slot_view(slot);
                ins.push((i + 1, slot));
                assert(ins_view(ins@) =~= n0 + seq![((i + 1) as int, sv)]);
                assert(idx_view(rem@) =~= r0 + Seq::<int>::empty());
            }
        },
    }
}

/// Whether some statement starts at `lo`.
fn stmt_at(stmts: &Vec<Stmt>, lo: u32) -> (r: bool)
    ensures
        r == has_stmt_at(stmts@, lo),
{
    let mut j: usize = 0;
    while j < stmts.len()
        invariant
            j <= stmts@.len(),
            forall|q: int| 0 <= q < j ==> stmts@[q].lo != lo,
        decreases stmts@.len() - j,
    {
        if stmts[j].lo == lo {
            assert(stmts@[j as int].lo == lo);
            return true;
        }
        j = j + 1;
    }
    false
}

/// Whether `rem` holds `j`.
fn holds(rem: &Vec<usize>, j: usize) -> (r: bool)
    ensures
        r == idx_view(rem@).contains(j as int),
{
    let mut k: usize = 0;
    while k < rem.len()
        invariant
            k <= rem@.len(),
            forall|q: int| 0 <= q < k ==> rem@[q] != j,
        decreases rem@.len() - k,
    {
        if rem[k] == j {
            assert(idx_view(rem@)[k as int] == j as int);
            return true;
        }
        k = k + 1;
    }
    false
}

impl NgAnnotateVisitor {
    /// The pending operations for the statements of a list, and the list
    /// they give: `None` when nothing is pending. The operations for
    /// statements of the list are done and leave the pending list.
    pub fn plan_pending_injects(&mut self, stmts: &Vec<Stmt>) -> (r: Option<Vec<Slot>>)
        ensures
            keeps_unique(old(self).pending(), final(self).pending()),
            final(self).same_settings(old(self)),
            old(self).pending().len() == 0 ==> r is None && final(self).pending() == old(self).pending(),
            old(self).pending().len() > 0 ==> (r matches Some(v) && slot_views(v@) == spec_layout(stmts@, old(self).pending(), old(self).rename())
                && final(self).pending() == remaining_ops(old(self).pending(), stmts@)),
    {
        if self.pending_injects.len() == 0 {
            return None;
        }
        let ghost pend = self.pending();
        let ghost rename = self.rename();
        let mut rem: Vec<usize> = Vec::new();
        let mut ins: Vec<(usize, Slot)> = Vec::new();
        let mut i: usize = 0;
        while i < stmts.len()
            invariant
                pend == self.pending(),
                rename == self.rename(),
                i <= stmts@.len(),
                idx_view(rem@) == plan_upto(stmts@, pend, rename, i as int).0,
                ins_view(ins@) == plan_upto(stmts@, pend, rename, i as int).1,
                forall|k: int| 0 <= k < rem@.len() ==> rem@[k] < stmts@.len(),
                forall|k: int| 0 <= k < ins@.len() ==> ins@[k].0 <= stmts@.len(),
            decreases stmts@.len() - i,
        {
            let lo = stmts[i].lo;
            let ghost r0 = idx_view(rem@);
            let ghost n0 = ins_view(ins@);
            let mut k: usize = 0;
            while k < self.pending_injects.len()
                invariant
                    pend == self.pending(),
                    rename == self.rename(),
                    i < stmts@.len(),
                    lo == stmts@[i as int].lo,
                    k <= pend.len(),
                    idx_view(rem@) == r0 + ops_plan(stmts@, i as int, ops_at(pend.take(k as int), lo), rename).0,
                    ins_view(ins@) == n0 + ops_plan(stmts@, i as int, ops_at(pend.take(k as int), lo), rename).1,
                    forall|q: int| 0 <= q < rem@.len() ==> rem@[q] < stmts@.len(),
                    forall|q: int| 0 <= q < ins@.len() ==> ins@[q].0 <= stmts@.len(),
                decreases pend.len() - k,
            {
                proof {
                    assert(pend.take(k + 1).drop_last() =~= pend.take(k as int));
                    assert(pend.take(k + 1).last() == pend[k as int]);
                }
                let op = &self.pending_injects[k];
                if op.stmt_lo == lo {
                    let ghost ops = ops_at(pend.take(k as int), lo);
                    let ghost ra = idx_view(rem@);
                    let ghost na = ins_view(ins@);
                    plan_op(stmts, i, op, &self.rename_map, &mut rem, &mut ins);
                    proof {
                        assert(ops_at(pend.take(k + 1), lo) == ops.push(op@));
                        assert(ops.push(op@).drop_last() =~= ops);
                        assert(idx_view(rem@) =~= r0 + ops_plan(stmts@, i as int, ops.push(op@), rename).0);
                        assert(ins_view(ins@) =~= n0 + ops_plan(stmts@, i as int, ops.push(op@), rename).1);
                    }
                }
                k = k + 1;
            }
            proof {
                assert(pend.take(pend.len() as int) =~= pend);
                let here = ops_plan(stmts@, i as int, ops_at(pend, lo), rename);
                let prev = plan_upto(stmts@, pend, rename, i as int);
                assert(plan_upto(stmts@, pend, rename, i + 1) == (prev.0 + here.0, prev.1 + here.1));
            }
            i = i + 1;
        }
        let ghost plan = plan_upto(stmts@, pend, rename, stmts@.len() as int);
        let mut base: Vec<Slot> = Vec::new();
        let mut j: usize = 0;
        while j < stmts.len()
            invariant
                j <= stmts@.len(),
                idx_view(rem@) == plan.0,
                slot_views(base@) == kept_slots(j as int, plan.0),
            decreases stmts@.len() - j,
        {
            if !holds(&rem, j) {
                let ghost before = slot_views(base@);
                base.push(Slot::Keep(j));
                assert(slot_views(base@) =~= before.push(SlotView::Keep(j as int)));
            }
            j = j + 1;
        }
        let mut sorted = sort_inserts(ins);
        let ghost target = apply_inserts(slot_views(base@), ins_view(sorted@));
        while sorted.len() > 0
            invariant
                apply_inserts(slot_views(base@), ins_view(sorted@)) == target,
            decreases sorted@.len(),
        {
            let ghost sv = ins_view(sorted@);
            let ghost bv = slot_views(base@);
            let x = sorted.pop();
            match x {
                Some((idx, slot)) => {
                    let pos = if idx < base.len() { idx } else { base.len() };
                    let ghost xv = slot_view(slot);
                    base.insert(pos, slot);
                    proof {
                        assert(ins_view(sorted@) =~= sv.drop_last());
                        assert(slot_views(base@) =~= bv.insert(pos as int, xv));
                    }
                },
                None => {},
            }
        }
        proof {
            assert(ins_view(sorted@) =~= Seq::<(int, SlotView)>::empty());
        }
        let mut rest: Vec<PendingInjectOp> = Vec::new();
        std::mem::swap(&mut rest, &mut self.pending_injects);
        let mut kept_ops: Vec<PendingInjectOp> = Vec::new();
        let mut q: usize = 0;
        let total = rest.len();
        while rest.len() > 0
            invariant
                pend.len() == total,
                q + rest@.len() == total,
                op_views(rest@) == pend.skip(q as int),
                op_views(kept_ops@) == remaining_ops(pend.take(q as int), stmts@),
            decreases rest@.len(),
        {
            let ghost old_rest = rest@;
            let op = rest.remove(0);
            proof {
                assert(old_rest[0] == op);
                assert(op_views(old_rest)[0] == op@);
                assert(pend.skip(q as int)[0] == pend[q as int]);
                assert(rest@ =~= old_rest.subrange(1, old_rest.len() as int));
                assert forall|t: int| 0 <= t < rest@.len() implies #[trigger] op_views(rest@)[t]
                    == pend.skip(q + 1)[t] by {
                    assert(op_views(old_rest)[t + 1] == pend.skip(q as int)[t + 1]);
                }
                assert(op_views(rest@) =~= pend.skip(q + 1));
                assert(pend.take(q + 1).drop_last() =~= pend.take(q as int));
                assert(pend.take(q + 1).last() == op@);
            }
            if !stmt_at(stmts, op.stmt_lo) {
                let ghost before = op_views(kept_ops@);
                let ghost ov = op@;
                kept_ops.push(op);
                assert(op_views(kept_ops@) =~= before.push(ov));
            }
            q = q + 1;
        }
        proof {
            assert(pend.take(q as int) =~= pend);
            lemma_remaining_unique(pend, stmts@);
        }
        self.pending_injects = kept_ops;
        Some(base)
    }
}


/// Makes a class edit on a class: drops its static `$inject` properties
/// when asked to, then appends one with the given strings.
pub fn apply_class_edit(class: &mut Class, edit: &ClassEdit)
    ensures
        final(class).lo == old(class).lo,
        final(class).comments == old(class).comments,
        match edit.add {
            Some(s) => {
                &&& spec_class_has_static_inject(*final(class))
                &&& final(class).members@.last() matches crate::ast::ClassMember::Prop(p) && p.value matches Some(v)
                    && crate::transforms::is_string_array(*v, str_views(s@))
                &&& final(class).members@.drop_last() == (if edit.remove_existing {
                    crate::transforms::kept_members(old(class).members@)
                } else {
                    old(class).members@
                })
            },
            None => final(class).members@ == (if edit.remove_existing {
                crate::transforms::kept_members(old(class).members@)
            } else {
                old(class).members@
            }),
        },
        edit.remove_existing && edit.add is None ==> !spec_class_has_static_inject(*final(class)),
{
    if edit.remove_existing {
        crate::transforms::remove_static_inject_from_class(class);
    }
    if let Some(strings) = &edit.add {
        let ghost before = class.members@;
        let m = crate::transforms::static_inject_member(strings);
        class.members.push(m);
        proof {
            assert(class.members@.drop_last() =~= before);
            assert(crate::transforms::spec_is_static_inject_member(class.members@[class.members@.len() - 1]));
        }
    }
}

} // verus!

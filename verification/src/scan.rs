//! The read-only pass before rewriting: it records which calls belong to
//! Angular chains, which expressions are suspected of needing annotation,
//! which names are declared as functions (with their parameters), and which
//! expressions carry explicit `ngInject` / `ngNoInject` requests.
//!
//! The traversal itself visits the syntax tree in source order; at each node
//! kind it calls the matching `Scanner` hook, which records what that node
//! contributes.

use vstd::prelude::*;
use crate::ast::{
    ArrayLit, ArrowBody, ArrowExpr, CallExpr, Class, ClassDecl, ClassMember, Expr, FnDecl, FnExpr,
    ObjectLit, PropOrSpread, VarDeclarator,
};
use crate::matchers::{
    decision_view, match_call, match_directive_return_object, match_provider_get_assign,
    match_provider_get_object, opt_view, spec_directive_return_object, spec_match_call,
    spec_provider_get_assign, CallMatchDecision, SubTarget, SubTargetView, TargetInfo, TargetView,
};
use crate::nginject::{
    check_arrow_for_ng_directive, check_fn_decl_for_ng_directive, check_fn_expr_for_ng_directive,
    check_ng_inject_comment_at, check_var_declarator_for_ng_directive, inspect_call_for_ng_call,
    inspect_fn_body_for_ng_directive, spec_arrow_directive, spec_comments_result, spec_from_opt,
    spec_function_directive, spec_ng_call, spec_prologue, spec_var_declarator_directive, NgInjectResult,
};
use crate::positions::{seq_insert, KindMap, PosSet};
use crate::regexp::Pattern;
use crate::text::str_eq;
use crate::utils::{
    extract_params, extract_pats_params, get_method_call, is_annotated_array, is_fn_or_arrow,
    match_prop_in_object, match_resolve_values, param_names, spec_is_annotated_array,
    spec_is_fn_or_arrow, spec_method_call, spec_prop_value, spec_resolve_values, str_views,
};
use crate::ast::expr_span_lo;

verus! {

/// How a name was declared.
#[derive(Debug, Clone, Copy, PartialEq, Eq, Structural)]
pub enum DeclKind {
    FnDecl,
    VarDeclarator,
}

/// A declared function (or class, or variable holding a function).
pub struct DeclInfo {
    /// Its parameter names.
    pub params: Vec<String>,
    /// Where the statement that declares it starts.
    pub stmt_lo: u32,
    /// Its name.
    pub name: String,
    pub decl_kind: DeclKind,
}

/// A declaration with its strings as character sequences.
pub struct DeclView {
    pub params: Seq<Seq<char>>,
    pub stmt_lo: u32,
    pub name: Seq<char>,
    pub decl_kind: DeclKind,
}

impl View for DeclInfo {
    type V = DeclView;

    open spec fn view(&self) -> DeclView {
        DeclView {
            params: str_views(self.params@),
            stmt_lo: self.stmt_lo,
            name: self.name@,
            decl_kind: self.decl_kind,
        }
    }
}

impl DeclInfo {
    /// A copy of the declaration.
    pub fn duplicate(&self) -> (r: DeclInfo)
        ensures
            r@ == self@,
    {
        DeclInfo {
            params: crate::transforms::clone_strings(&self.params),
            stmt_lo: self.stmt_lo,
            name: self.name.clone(),
            decl_kind: self.decl_kind,
        }
    }
}

/// The map that a list of declarations describes when they are inserted
/// in order by name: a later declaration of a name replaces an earlier one.
pub open spec fn decl_map_of(s: Seq<DeclView>) -> Map<Seq<char>, DeclView>
    decreases s.len(),
{
    if s.len() == 0 {
        Map::empty()
    } else {
        decl_map_of(s.drop_last()).insert(s.last().name, s.last())
    }
}

proof fn lemma_decl_map_last(s: Seq<DeclView>, k: Seq<char>, i: int)
    requires
        0 <= i < s.len(),
        s[i].name == k,
        forall|j: int| i < j < s.len() ==> s[j].name != k,
    ensures
        decl_map_of(s).contains_key(k),
        decl_map_of(s)[k] == s[i],
    decreases s.len(),
{
    if i < s.len() - 1 {
        lemma_decl_map_last(s.drop_last(), k, i);
    }
}

proof fn lemma_decl_map_absent(s: Seq<DeclView>, k: Seq<char>)
    requires
        forall|j: int| 0 <= j < s.len() ==> s[j].name != k,
    ensures
        !decl_map_of(s).contains_key(k),
    decreases s.len(),
{
    if s.len() > 0 {
        lemma_decl_map_absent(s.drop_last(), k);
    }
}

/// Declarations by name.
pub struct DeclMap {
    entries: Vec<DeclInfo>,
}

impl View for DeclMap {
    type V = Map<Seq<char>, DeclView>;

    closed spec fn view(&self) -> Map<Seq<char>, DeclView> {
        decl_map_of(self.entries@.map_values(|d: DeclInfo| d@))
    }
}

impl DeclMap {
    /// The empty map.
    pub fn new() -> (r: DeclMap)
        ensures
            r@ == Map::<Seq<char>, DeclView>::empty(),
    {
        let r = DeclMap { entries: Vec::new() };
        assert(r.entries@.map_values(|d: DeclInfo| d@) =~= Seq::<DeclView>::empty());
        r
    }

    /// The declaration of `name`.
    pub fn get(&self, name: &str) -> (r: Option<&DeclInfo>)
        ensures
            match r {
                Some(d) => self@.contains_key(name@) && self@[name@] == d@,
                None => !self@.contains_key(name@),
            },
    {
        let ghost vs = self.entries@.map_values(|d: DeclInfo| d@);
        let n = self.entries.len();
        let mut i = n;
        while i > 0
            invariant
                n == self.entries@.len(),
                vs == self.entries@.map_values(|d: DeclInfo| d@),
                i <= n,
                forall|j: int| i <= j < n ==> vs[j].name != name@,
            decreases i,
        {
            let j = i - 1;
            if str_eq(self.entries[j].name.as_str(), name) {
                proof {
                    lemma_decl_map_last(vs, name@, j as int);
                }
                return Some(&self.entries[j]);
            }
            i = j;
        }
        proof {
            lemma_decl_map_absent(vs, name@);
        }
        None
    }

    /// Records `d` under its name, replacing an earlier declaration.
    pub fn insert(&mut self, d: DeclInfo)
        ensures
            final(self)@ == old(self)@.insert(d.name@, d@),
    {
        let ghost dv = d@;
        self.entries.push(d);
        assert(self.entries@.map_values(|d: DeclInfo| d@).drop_last() =~= old(self).entries@.map_values(
            |d: DeclInfo| d@,
        ));
    }
}


/// An expression suspected of needing an annotation.
pub struct SuspectEntry {
    /// Where the expression starts.
    pub target_lo: u32,
    /// The method name recorded for it.
    pub method_name: Option<String>,
    /// Whether it counts only inside a module chain.
    pub context_dependent: bool,
    /// The name it refers to, when it is an identifier.
    pub ref_name: Option<String>,
    /// Where the registered name's literal starts, when there is one.
    pub rename_name_lo: Option<u32>,
    /// Whether an explicit `ngInject` request made it a suspect.
    pub ng_inject_explicit: bool,
    /// Whether it is blocked.
    pub blocked: bool,
}

/// A suspect with its strings as character sequences.
pub struct SuspectView {
    pub target_lo: u32,
    pub method_name: Option<Seq<char>>,
    pub context_dependent: bool,
    pub ref_name: Option<Seq<char>>,
    pub rename_name_lo: Option<u32>,
    pub ng_inject_explicit: bool,
    pub blocked: bool,
}

impl View for SuspectEntry {
    type V = SuspectView;

    open spec fn view(&self) -> SuspectView {
        SuspectView {
            target_lo: self.target_lo,
            method_name: opt_view(self.method_name),
            context_dependent: self.context_dependent,
            ref_name: opt_view(self.ref_name),
            rename_name_lo: self.rename_name_lo,
            ng_inject_explicit: self.ng_inject_explicit,
            blocked: self.blocked,
        }
    }
}

/// Everything the scan records.
pub struct ScanContext {
    /// Positions of the calls that belong to Angular chains.
    pub chained: PosSet,
    /// The chain kind of each chained call.
    pub chain_kinds: KindMap,
    /// The suspects, in order of discovery; at most one per position.
    pub suspects: Vec<SuspectEntry>,
    /// Declared functions by name.
    pub decl_map: DeclMap,
    /// Positions of expressions with an `ngNoInject` request.
    pub blocked: PosSet,
    /// Positions of expressions with an `ngInject` request.
    pub ng_inject_explicit: PosSet,
}

/// What the scan has recorded, as mathematical values.
#[verifier::ext_equal]
pub struct ScanView {
    pub chained: Seq<u32>,
    pub chain_kinds: Map<u32, u8>,
    pub suspects: Seq<SuspectView>,
    pub decl_map: Map<Seq<char>, DeclView>,
    pub blocked: Seq<u32>,
    pub explicit: Seq<u32>,
}

impl View for ScanContext {
    type V = ScanView;

    open spec fn view(&self) -> ScanView {
        ScanView {
            chained: self.chained.seq(),
            chain_kinds: self.chain_kinds.map(),
            suspects: self.suspects@.map_values(|s: SuspectEntry| s@),
            decl_map: self.decl_map@,
            blocked: self.blocked.seq(),
            explicit: self.ng_inject_explicit.seq(),
        }
    }
}

/// A suspect at `lo` that is not blocked.
pub open spec fn entry(
    lo: u32,
    method: Option<Seq<char>>,
    context_dependent: bool,
    ref_name: Option<Seq<char>>,
    rename_name_lo: Option<u32>,
    explicit: bool,
) -> SuspectView {
    SuspectView {
        target_lo: lo,
        method_name: method,
        context_dependent,
        ref_name,
        rename_name_lo,
        ng_inject_explicit: explicit,
        blocked: false,
    }
}

/// The name an identifier expression refers to.
pub open spec fn ident_name(e: Expr) -> Option<Seq<char>> {
    match e {
        Expr::Ident(id) => Some(id.name@),
        _ => None,
    }
}

/// Some recorded suspect is at position `lo`.
pub open spec fn has_suspect_at(c: ScanView, lo: u32) -> bool {
    exists|i: int| 0 <= i < c.suspects.len() && #[trigger] c.suspects[i].target_lo == lo
}

/// Records `e` unless a suspect at its position is already recorded.
pub open spec fn spec_add_suspect(c: ScanView, e: SuspectView) -> ScanView {
    if has_suspect_at(c, e.target_lo) {
        c
    } else {
        ScanView { suspects: c.suspects.push(e), ..c }
    }
}

/// Records the suspects of `es` in order.
pub open spec fn add_all(c: ScanView, es: Seq<SuspectView>) -> ScanView
    decreases es.len(),
{
    if es.len() == 0 {
        c
    } else {
        spec_add_suspect(add_all(c, es.drop_last()), es.last())
    }
}

/// Recording `a` then `b` records `a + b`.
pub proof fn lemma_add_all_concat(c: ScanView, a: Seq<SuspectView>, b: Seq<SuspectView>)
    ensures
        add_all(c, a + b) == add_all(add_all(c, a), b),
    decreases b.len(),
{
    if b.len() == 0 {
        assert(a + b =~= a);
    } else {
        assert((a + b).drop_last() =~= a + b.drop_last());
        lemma_add_all_concat(c, a, b.drop_last());
    }
}

/// Recording one suspect is `spec_add_suspect`; recording none changes
/// nothing.
pub proof fn lemma_add_all_single(c: ScanView, e: SuspectView)
    ensures
        add_all(c, seq![e]) == spec_add_suspect(c, e),
        add_all(c, Seq::empty()) == c,
{
    let s = seq![e];
    assert(s.drop_last() =~= Seq::<SuspectView>::empty());
    assert(add_all(c, Seq::<SuspectView>::empty()) == c);
    assert(s.last() == e);
}

/// Records a declaration under its name.
pub open spec fn spec_insert_decl(c: ScanView, d: DeclView) -> ScanView {
    ScanView { decl_map: c.decl_map.insert(d.name, d), ..c }
}

/// Marks the call at `lo` as chained with `kind`, when there is a kind.
pub open spec fn spec_mark(c: ScanView, lo: u32, kind: Option<u8>) -> ScanView {
    match kind {
        Some(k) => ScanView { chained: seq_insert(c.chained, lo), chain_kinds: c.chain_kinds.insert(lo, k), ..c },
        None => c,
    }
}

/// An explicit request at `lo`: `ngNoInject` blocks it, `ngInject` records
/// it as explicit and as a suspect.
pub open spec fn spec_handle_explicit(c: ScanView, lo: u32, blocked: bool) -> ScanView {
    if blocked {
        ScanView { blocked: seq_insert(c.blocked, lo), ..c }
    } else {
        spec_add_suspect(ScanView { explicit: seq_insert(c.explicit, lo), ..c }, entry(lo, None, false, None, None, true))
    }
}

/// What a request found at `lo` does.
pub open spec fn spec_apply_request(c: ScanView, lo: u32, r: NgInjectResult) -> ScanView {
    match r {
        NgInjectResult::Inject => spec_handle_explicit(c, lo, false),
        NgInjectResult::NoInject => spec_handle_explicit(c, lo, true),
        NgInjectResult::NoDirective => c,
    }
}

/// The suspect for the value of property `name`, when there is one.
pub open spec fn named_entry(props: Seq<PropOrSpread>, name: Seq<char>, method: Option<Seq<char>>) -> Seq<SuspectView> {
    match spec_prop_value(name, props) {
        Some(v) => seq![entry(v.spec_lo(), method, false, ident_name(v), None, false)],
        None => Seq::empty(),
    }
}

/// The suspects of the values of a `resolve` object.
pub open spec fn resolve_entries(props: Seq<PropOrSpread>, method: Option<Seq<char>>) -> Seq<SuspectView> {
    spec_resolve_values(props).map_values(|v: Expr| entry(v.spec_lo(), method, false, ident_name(v), None, false))
}

/// The suspects of one named view of a ui-router state.
pub open spec fn one_view_entries(p: PropOrSpread, method: Option<Seq<char>>) -> Seq<SuspectView> {
    match p {
        PropOrSpread::KeyValue(kv) => match *kv.value {
            Expr::Object(vo) => named_entry(vo.props@, "controller"@, method)
                + named_entry(vo.props@, "controllerProvider"@, method)
                + named_entry(vo.props@, "templateProvider"@, method)
                + resolve_entries(vo.props@, method),
            _ => Seq::empty(),
        },
        _ => Seq::empty(),
    }
}

/// The suspects of the named views listed in `ps`.
pub open spec fn view_props_entries(ps: Seq<PropOrSpread>, method: Option<Seq<char>>) -> Seq<SuspectView>
    decreases ps.len(),
{
    if ps.len() == 0 {
        Seq::empty()
    } else {
        view_props_entries(ps.drop_last(), method) + one_view_entries(ps.last(), method)
    }
}

/// The suspects of the `views` object of a ui-router state.
pub open spec fn views_entries(props: Seq<PropOrSpread>, method: Option<Seq<char>>) -> Seq<SuspectView> {
    match spec_prop_value("views"@, props) {
        Some(Expr::Object(vo)) => view_props_entries(vo.props@, method),
        _ => Seq::empty(),
    }
}

/// The suspects that the property path `path` leads to in an object.
pub open spec fn sub_entries(o: ObjectLit, path: Seq<Seq<char>>, method: Option<Seq<char>>) -> Seq<SuspectView>
    decreases path.len(),
{
    if path.len() == 0 {
        Seq::empty()
    } else if path[0] == "resolve"@ && path.len() == 1 {
        resolve_entries(o.props@, method)
    } else if path[0] == "views"@ && path.len() == 1 {
        views_entries(o.props@, method)
    } else {
        match spec_prop_value(path[0], o.props@) {
            Some(v) => if path.len() == 1 {
                seq![entry(v.spec_lo(), method, false, ident_name(v), None, false)]
            } else {
                match v {
                    Expr::Object(n) => sub_entries(n, path.drop_first(), method),
                    _ => Seq::empty(),
                }
            },
            None => Seq::empty(),
        }
    }
}

/// The suspects of the sub-targets `subs` of an object argument.
pub open spec fn subs_entries(o: ObjectLit, subs: Seq<SubTargetView>) -> Seq<SuspectView>
    decreases subs.len(),
{
    if subs.len() == 0 {
        Seq::empty()
    } else {
        subs_entries(o, subs.drop_last()) + sub_entries(o, subs.last().prop_path, subs.last().method_name)
    }
}

/// The position of the registered name's argument, when it exists.
pub open spec fn rename_lo(args: Seq<Expr>, idx: Option<usize>) -> Option<u32> {
    match idx {
        Some(i) => if i < args.len() { Some(args[i as int].spec_lo()) } else { None },
        None => None,
    }
}

/// The suspects of one target of a call.
pub open spec fn target_entries(call: CallExpr, t: TargetView) -> Seq<SuspectView> {
    if t.arg_index < call.args@.len() {
        let arg = call.args@[t.arg_index as int];
        if t.sub_targets.len() == 0 {
            seq![entry(arg.spec_lo(), t.method_name, t.context_dependent, ident_name(arg),
                rename_lo(call.args@, t.rename_name_arg_index), false)]
        } else {
            match arg {
                Expr::Object(o) => subs_entries(o, t.sub_targets),
                _ => Seq::empty(),
            }
        }
    } else {
        Seq::empty()
    }
}

/// The suspects of the targets of a call, in order.
pub open spec fn targets_entries(call: CallExpr, ts: Seq<TargetView>) -> Seq<SuspectView>
    decreases ts.len(),
{
    if ts.len() == 0 {
        Seq::empty()
    } else {
        targets_entries(call, ts.drop_last()) + target_entries(call, ts.last())
    }
}

/// The chain kind of the object a method is called on.
pub open spec fn spec_callee_chain_kind(c: ScanView, call: CallExpr) -> Option<u8> {
    match spec_method_call(call) {
        Some((obj, _, _)) => if c.chain_kinds.contains_key(obj.spec_lo()) {
            Some(c.chain_kinds[obj.spec_lo()])
        } else {
            None
        },
        None => None,
    }
}

/// What a call contributes (after its children): an `ngInject(..)` /
/// `ngNoInject(..)` request, or its chain kind and its targets.
pub open spec fn spec_scan_call(c: ScanView, call: CallExpr, pattern: Seq<char>, adf: bool) -> ScanView {
    match spec_ng_call(call) {
        Some((blocked, arg)) => spec_handle_explicit(c, arg.spec_lo(), blocked),
        None => match spec_match_call(call, spec_callee_chain_kind(c, call), pattern, adf) {
            Some(d) => add_all(spec_mark(c, call.lo, d.chain_kind), targets_entries(call, d.targets)),
            None => c,
        },
    }
}


/// The scan of an empty program.
pub open spec fn empty_scan() -> ScanView {
    ScanView {
        chained: Seq::empty(),
        chain_kinds: Map::empty(),
        suspects: Seq::empty(),
        decl_map: Map::empty(),
        blocked: Seq::empty(),
        explicit: Seq::empty(),
    }
}

impl ScanContext {
    /// Nothing recorded.
    pub fn new() -> (r: ScanContext)
        ensures
            r@ == empty_scan(),
    {
        let r = ScanContext {
            chained: PosSet::new(),
            chain_kinds: KindMap::new(),
            suspects: Vec::new(),
            decl_map: DeclMap::new(),
            blocked: PosSet::new(),
            ng_inject_explicit: PosSet::new(),
        };
        assert(r@.suspects =~= Seq::<SuspectView>::empty());
        r
    }

    /// Marks the call at `lo` as chained with `kind`.
    pub fn mark_chained(&mut self, lo: u32, kind: u8)
        ensures
            final(self)@ == spec_mark(old(self)@, lo, Some(kind)),
    {
        self.chained.insert(lo);
        self.chain_kinds.insert(lo, kind);
    }

    /// Records `entry` unless a suspect at its position is already recorded.
    pub fn add_suspect(&mut self, entry: SuspectEntry)
        ensures
            final(self)@ == spec_add_suspect(old(self)@, entry@),
    {
        let mut i: usize = 0;
        while i < self.suspects.len()
            invariant
                i <= self.suspects@.len(),
                forall|j: int| 0 <= j < i ==> self.suspects@[j].target_lo != entry.target_lo,
            decreases self.suspects@.len() - i,
        {
            if self.suspects[i].target_lo == entry.target_lo {
                assert(self@.suspects[i as int].target_lo == entry.target_lo);
                return;
            }
            i = i + 1;
        }
        let ghost ev = entry@;
        self.suspects.push(entry);
        assert(self@.suspects =~= old(self)@.suspects.push(ev));
    }

    /// The chain kind recorded for the call at `lo`.
    pub fn get_chain_kind(&self, lo: u32) -> (r: Option<u8>)
        ensures
            r == (if self@.chain_kinds.contains_key(lo) { Some(self@.chain_kinds[lo]) } else { None }),
    {
        self.chain_kinds.get(lo)
    }
}

/// A copy of an optional string.
pub fn clone_opt(o: &Option<String>) -> (r: Option<String>)
    ensures
        opt_view(r) == opt_view(*o),
{
    match o {
        Some(s) => Some(s.clone()),
        None => None,
    }
}

/// The name an identifier expression refers to.
pub fn extract_ident_name(expr: &Expr) -> (r: Option<String>)
    ensures
        opt_view(r) == ident_name(*expr),
{
    match expr {
        Expr::Ident(id) => Some(id.name.clone()),
        _ => None,
    }
}

/// The statement the scanner was in before entering another one.
pub struct StmtMark {
    pub lo: u32,
    pub comments: Vec<String>,
}

/// The scanner: what it has recorded and where it is.
pub struct Scanner<'a> {
    ctx: ScanContext,
    regexp: &'a Pattern,
    enable_adf: bool,
    current_stmt_lo: u32,
    current_stmt_comments: Vec<String>,
}

impl<'a> Scanner<'a> {
    /// What has been recorded.
    pub closed spec fn recorded(&self) -> ScanView {
        self.ctx@
    }

    /// What has been recorded.
    pub fn into_context(self) -> (r: ScanContext)
        ensures
            r@ == self.recorded(),
    {
        self.ctx
    }

    /// The pattern that decides which names count as modules.
    pub closed spec fn pattern(&self) -> Seq<char> {
        self.regexp.spec_source()
    }

    /// Whether the dashboard matcher is enabled.
    pub closed spec fn adf(&self) -> bool {
        self.enable_adf
    }

    /// Where the statement that the scanner is in starts.
    pub closed spec fn stmt_lo(&self) -> u32 {
        self.current_stmt_lo
    }

    /// The comments that lead the statement that the scanner is in.
    pub closed spec fn stmt_comments(&self) -> Seq<String> {
        self.current_stmt_comments@
    }

    /// Everything but the recorded context is as in `other`.
    pub open spec fn same_place(&self, other: &Scanner<'a>) -> bool {
        &&& self.pattern() == other.pattern()
        &&& self.adf() == other.adf()
        &&& self.stmt_lo() == other.stmt_lo()
        &&& self.stmt_comments() == other.stmt_comments()
    }

    /// A scanner with nothing recorded, outside any statement.
    pub fn new(regexp: &'a Pattern, enable_adf: bool) -> (r: Scanner<'a>)
        ensures
            r.recorded() == empty_scan(),
            r.pattern() == regexp.spec_source(),
            r.adf() == enable_adf,
            r.stmt_lo() == 0,
            r.stmt_comments() == Seq::<String>::empty(),
    {
        Scanner {
            ctx: ScanContext::new(),
            regexp,
            enable_adf,
            current_stmt_lo: 0,
            current_stmt_comments: Vec::new(),
        }
    }

    /// Enters the statement (or module item) at `lo`, led by `comments`;
    /// gives back the statement it was in.
    pub fn enter_stmt(&mut self, lo: u32, comments: Vec<String>) -> (r: StmtMark)
        ensures
            final(self).recorded() == old(self).recorded(),
            final(self).pattern() == old(self).pattern(),
            final(self).adf() == old(self).adf(),
            final(self).stmt_lo() == lo,
            final(self).stmt_comments() == comments@,
            r.lo == old(self).stmt_lo(),
            r.comments@ == old(self).stmt_comments(),
    {
        let mut c = comments;
        std::mem::swap(&mut c, &mut self.current_stmt_comments);
        let prev = StmtMark { lo: self.current_stmt_lo, comments: c };
        self.current_stmt_lo = lo;
        prev
    }

    /// Leaves a statement, going back to the one it was in.
    pub fn leave_stmt(&mut self, mark: StmtMark)
        ensures
            final(self).recorded() == old(self).recorded(),
            final(self).pattern() == old(self).pattern(),
            final(self).adf() == old(self).adf(),
            final(self).stmt_lo() == mark.lo,
            final(self).stmt_comments() == mark.comments@,
    {
        self.current_stmt_lo = mark.lo;
        self.current_stmt_comments = mark.comments;
    }

    /// The chain kind of the object a method is called on.
    fn callee_chain_kind(&self, call: &CallExpr) -> (r: Option<u8>)
        ensures
            r == spec_callee_chain_kind(self.recorded(), *call),
    {
        match get_method_call(call) {
            Some((obj, _, _)) => self.ctx.get_chain_kind(expr_span_lo(obj)),
            None => None,
        }
    }

    /// An explicit request at `lo`.
    fn handle_ng_inject_explicit(&mut self, target_lo: u32, blocked: bool)
        ensures
            final(self).recorded() == spec_handle_explicit(old(self).recorded(), target_lo, blocked),
            final(self).same_place(old(self)),
    {
        if blocked {
            self.ctx.blocked.insert(target_lo);
        } else {
            self.ctx.ng_inject_explicit.insert(target_lo);
            self.ctx.add_suspect(SuspectEntry {
                target_lo,
                method_name: None,
                context_dependent: false,
                ref_name: None,
                rename_name_lo: None,
                ng_inject_explicit: true,
                blocked: false,
            });
        }
    }

    /// Records the suspect for `value` found under a sub-target.
    fn add_value_suspect(&mut self, value: &Expr, method_name: &Option<String>)
        ensures
            final(self).recorded() == spec_add_suspect(
                old(self).recorded(),
                entry(value.spec_lo(), opt_view(*method_name), false, ident_name(*value), None, false),
            ),
            final(self).same_place(old(self)),
    {
        self.ctx.add_suspect(SuspectEntry {
            target_lo: expr_span_lo(value),
            method_name: clone_opt(method_name),
            context_dependent: false,
            ref_name: extract_ident_name(value),
            rename_name_lo: None,
            ng_inject_explicit: false,
            blocked: false,
        });
    }

    /// Records the suspects of the values of a `resolve` object.
    fn collect_resolve_targets(&mut self, props: &Vec<PropOrSpread>, method_name: &Option<String>)
        ensures
            final(self).recorded() == add_all(old(self).recorded(), resolve_entries(props@, opt_view(*method_name))),
            final(self).same_place(old(self)),
    {
        let values = match_resolve_values(props);
        let ghost vals = values@.map_values(|e: &Expr| *e);
        let ghost es = resolve_entries(props@, opt_view(*method_name));
        let mut i: usize = 0;
        while i < values.len()
            invariant
                vals == values@.map_values(|e: &Expr| *e),
                vals == spec_resolve_values(props@),
                es == resolve_entries(props@, opt_view(*method_name)),
                es.len() == vals.len(),
                i <= values@.len(),
                self.recorded() == add_all(old(self).recorded(), es.take(i as int)),
                self.same_place(old(self)),
            decreases values@.len() - i,
        {
            let v: &Expr = values[i];
            self.add_value_suspect(v, method_name);
            assert(es.take(i + 1).drop_last() =~= es.take(i as int));
            assert(es[i as int] == entry(v.spec_lo(), opt_view(*method_name), false, ident_name(*v), None, false));
            i = i + 1;
        }
        assert(es.take(values@.len() as int) =~= es);
    }

    /// Records the suspect for the value of property `name`, if there is one.
    fn add_named(&mut self, props: &Vec<PropOrSpread>, name: &str, method_name: &Option<String>)
        ensures
            final(self).recorded() == add_all(old(self).recorded(), named_entry(props@, name@, opt_view(*method_name))),
            final(self).same_place(old(self)),
    {
        proof {
            lemma_add_all_single(
                self.recorded(),
                entry(0, opt_view(*method_name), false, None, None, false),
            );
        }
        if let Some(v) = match_prop_in_object(name, props) {
            proof {
                lemma_add_all_single(
                    self.recorded(),
                    entry(v.spec_lo(), opt_view(*method_name), false, ident_name(*v), None, false),
                );
            }
            self.add_value_suspect(v, method_name);
        }
    }

    /// Records the suspects of one named view of a ui-router state.
    fn collect_one_view(&mut self, prop: &PropOrSpread, method_name: &Option<String>)
        ensures
            final(self).recorded() == add_all(old(self).recorded(), one_view_entries(*prop, opt_view(*method_name))),
            final(self).same_place(old(self)),
    {
        let ghost m = opt_view(*method_name);
        if let PropOrSpread::KeyValue(kv) = prop {
            if let Expr::Object(view_obj) = &*kv.value {
                let ghost c0 = self.recorded();
                let ghost e1 = named_entry(view_obj.props@, "controller"@, m);
                let ghost e2 = named_entry(view_obj.props@, "controllerProvider"@, m);
                let ghost e3 = named_entry(view_obj.props@, "templateProvider"@, m);
                let ghost e4 = resolve_entries(view_obj.props@, m);
                self.add_named(&view_obj.props, "controller", method_name);
                self.add_named(&view_obj.props, "controllerProvider", method_name);
                proof { lemma_add_all_concat(c0, e1, e2); }
                self.add_named(&view_obj.props, "templateProvider", method_name);
                proof { lemma_add_all_concat(c0, e1 + e2, e3); }
                self.collect_resolve_targets(&view_obj.props, method_name);
                proof { lemma_add_all_concat(c0, e1 + e2 + e3, e4); }
                return;
            }
        }
        assert(one_view_entries(*prop, m) =~= Seq::<SuspectView>::empty());
        proof { lemma_add_all_single(self.recorded(), entry(0, m, false, None, None, false)); }
    }

    /// Records the suspects of the `views` object of a ui-router state.
    fn collect_views_targets(&mut self, props: &Vec<PropOrSpread>, method_name: &Option<String>)
        ensures
            final(self).recorded() == add_all(old(self).recorded(), views_entries(props@, opt_view(*method_name))),
            final(self).same_place(old(self)),
    {
        let ghost m = opt_view(*method_name);
        if let Some(views_expr) = match_prop_in_object("views", props) {
            if let Expr::Object(views_obj) = views_expr {
                let mut i: usize = 0;
                while i < views_obj.props.len()
                    invariant
                        m == opt_view(*method_name),
                        i <= views_obj.props@.len(),
                        self.recorded() == add_all(old(self).recorded(), view_props_entries(views_obj.props@.take(i as int), m)),
                        self.same_place(old(self)),
                    decreases views_obj.props@.len() - i,
                {
                    let ghost mid = self.recorded();
                    self.collect_one_view(&views_obj.props[i], method_name);
                    proof {
                        assert(views_obj.props@.take(i + 1).drop_last() =~= views_obj.props@.take(i as int));
                        assert(views_obj.props@.take(i + 1).last() == views_obj.props@[i as int]);
                        assert(view_props_entries(views_obj.props@.take(i + 1), m) == view_props_entries(
                            views_obj.props@.take(i as int),
                            m,
                        ) + one_view_entries(views_obj.props@[i as int], m));
                        lemma_add_all_concat(
                            old(self).recorded(),
                            view_props_entries(views_obj.props@.take(i as int), m),
                            one_view_entries(views_obj.props@[i as int], m),
                        );
                    }
                    i = i + 1;
                }
                assert(views_obj.props@.take(views_obj.props@.len() as int) =~= views_obj.props@);
                return;
            }
        }
        assert(views_entries(props@, m) =~= Seq::<SuspectView>::empty());
        proof { lemma_add_all_single(self.recorded(), entry(0, m, false, None, None, false)); }
    }

    /// Records the suspects that `prop_path[from..]` leads to in `obj_expr`.
    fn collect_sub_target(&mut self, obj_expr: &ObjectLit, prop_path: &Vec<String>, from: usize, method_name: &Option<String>)
        requires
            from <= prop_path@.len(),
        ensures
            final(self).recorded() == add_all(
                old(self).recorded(),
                sub_entries(*obj_expr, str_views(prop_path@).skip(from as int), opt_view(*method_name)),
            ),
            final(self).same_place(old(self)),
        decreases prop_path@.len() - from,
    {
        let ghost path = str_views(prop_path@).skip(from as int);
        let ghost m = opt_view(*method_name);
        if from >= prop_path.len() {
            assert(path.len() == 0);
            proof { lemma_add_all_single(self.recorded(), entry(0, m, false, None, None, false)); }
            return;
        }
        let first: &str = prop_path[from].as_str();
        let single = prop_path.len() - from == 1;
        assert(path[0] == first@);
        assert(path.len() == prop_path@.len() - from);
        if str_eq(first, "resolve") && single {
            self.collect_resolve_targets(&obj_expr.props, method_name);
            return;
        }
        if str_eq(first, "views") && single {
            self.collect_views_targets(&obj_expr.props, method_name);
            return;
        }
        if let Some(value) = match_prop_in_object(first, &obj_expr.props) {
            if single {
                proof {
                    lemma_add_all_single(
                        self.recorded(),
                        entry(value.spec_lo(), m, false, ident_name(*value), None, false),
                    );
                }
                self.add_value_suspect(value, method_name);
                assert(sub_entries(*obj_expr, path, m) =~= seq![
                    entry(value.spec_lo(), m, false, ident_name(*value), None, false),
                ]);
                assert(seq![entry(value.spec_lo(), m, false, ident_name(*value), None, false)].drop_last()
                    =~= Seq::<SuspectView>::empty());
            } else {
                if let Expr::Object(nested_obj) = value {
                    assert(str_views(prop_path@).skip(from + 1) =~= path.drop_first());
                    self.collect_sub_target(nested_obj, prop_path, from + 1, method_name);
                } else {
                    assert(sub_entries(*obj_expr, path, m) =~= Seq::<SuspectView>::empty());
                    proof { lemma_add_all_single(self.recorded(), entry(0, m, false, None, None, false)); }
                }
            }
        } else {
            assert(sub_entries(*obj_expr, path, m) =~= Seq::<SuspectView>::empty());
            proof { lemma_add_all_single(self.recorded(), entry(0, m, false, None, None, false)); }
        }
    }

    /// Records the suspects of the sub-targets `sub_targets` of an object
    /// argument.
    fn process_sub_targets(&mut self, expr: &Expr, sub_targets: &Vec<SubTarget>)
        ensures
            final(self).recorded() == add_all(old(self).recorded(), match *expr {
                Expr::Object(o) => subs_entries(o, sub_targets@.map_values(|s: SubTarget| s@)),
                _ => Seq::empty(),
            }),
            final(self).same_place(old(self)),
    {
        if let Expr::Object(obj_expr) = expr {
            let ghost subs = sub_targets@.map_values(|s: SubTarget| s@);
            let mut i: usize = 0;
            while i < sub_targets.len()
                invariant
                    subs == sub_targets@.map_values(|s: SubTarget| s@),
                    i <= sub_targets@.len(),
                    self.recorded() == add_all(old(self).recorded(), subs_entries(*obj_expr, subs.take(i as int))),
                    self.same_place(old(self)),
                decreases sub_targets@.len() - i,
            {
                let sub = &sub_targets[i];
                assert(str_views(sub.prop_path@).skip(0) =~= sub@.prop_path);
                self.collect_sub_target(obj_expr, &sub.prop_path, 0, &sub.method_name);
                proof {
                    assert(subs.take(i + 1).drop_last() =~= subs.take(i as int));
                    lemma_add_all_concat(
                        old(self).recorded(),
                        subs_entries(*obj_expr, subs.take(i as int)),
                        sub_entries(*obj_expr, subs[i as int].prop_path, subs[i as int].method_name),
                    );
                }
                i = i + 1;
            }
            assert(subs.take(sub_targets@.len() as int) =~= subs);
            return;
        }
        assert(add_all(old(self).recorded(), Seq::empty()) == old(self).recorded());
    }

    /// Records the suspects of one target of a call.
    fn process_target(&mut self, call: &CallExpr, target: &TargetInfo)
        ensures
            final(self).recorded() == add_all(old(self).recorded(), target_entries(*call, target@)),
            final(self).same_place(old(self)),
    {
        proof {
            lemma_add_all_single(self.recorded(), entry(0, None, false, None, None, false));
        }
        if target.arg_index >= call.args.len() {
            return;
        }
        let arg = &call.args[target.arg_index];
        if target.sub_targets.len() == 0 {
            let rename_lo: Option<u32> = match target.rename_name_arg_index {
                Some(i) => if i < call.args.len() {
                    Some(expr_span_lo(&call.args[i]))
                } else {
                    None
                },
                None => None,
            };
            let e = SuspectEntry {
                target_lo: expr_span_lo(arg),
                method_name: clone_opt(&target.method_name),
                context_dependent: target.context_dependent,
                ref_name: extract_ident_name(arg),
                rename_name_lo: rename_lo,
                ng_inject_explicit: false,
                blocked: false,
            };
            let ghost ev = e@;
            proof { lemma_add_all_single(self.recorded(), ev); }
            self.ctx.add_suspect(e);
        } else {
            self.process_sub_targets(arg, &target.sub_targets);
        }
    }

    /// Records a matched call: its chain kind and the suspects of its
    /// targets.
    fn process_call_decision(&mut self, call: &CallExpr, decision: &CallMatchDecision)
        ensures
            final(self).recorded() == add_all(
                spec_mark(old(self).recorded(), call.lo, decision.chain_kind),
                targets_entries(*call, decision@.targets),
            ),
            final(self).same_place(old(self)),
    {
        if let Some(kind) = decision.chain_kind {
            self.ctx.mark_chained(call.lo, kind);
        }
        let ghost c0 = self.recorded();
        let ghost ts = decision@.targets;
        let mut i: usize = 0;
        while i < decision.targets.len()
            invariant
                ts == decision@.targets,
                c0 == spec_mark(old(self).recorded(), call.lo, decision.chain_kind),
                i <= decision.targets@.len(),
                self.recorded() == add_all(c0, targets_entries(*call, ts.take(i as int))),
                self.same_place(old(self)),
            decreases decision.targets@.len() - i,
        {
            self.process_target(call, &decision.targets[i]);
            proof {
                assert(ts.take(i + 1).drop_last() =~= ts.take(i as int));
                lemma_add_all_concat(c0, targets_entries(*call, ts.take(i as int)), target_entries(*call, ts[i as int]));
            }
            i = i + 1;
        }
        assert(ts.take(decision.targets@.len() as int) =~= ts);
    }

    /// What a call contributes; called after its children are scanned.
    pub fn scan_call_expr(&mut self, call: &CallExpr)
        ensures
            final(self).recorded() == spec_scan_call(old(self).recorded(), *call, old(self).pattern(), old(self).adf()),
            final(self).same_place(old(self)),
    {
        if let Some((blocked, arg_expr)) = inspect_call_for_ng_call(call) {
            let arg_lo = expr_span_lo(arg_expr);
            self.handle_ng_inject_explicit(arg_lo, blocked);
            return;
        }
        let callee_chain_kind = self.callee_chain_kind(call);
        if let Some(decision) = match_call(call, callee_chain_kind, self.regexp, self.enable_adf) {
            self.process_call_decision(call, &decision);
        }
    }
}


/// What an expression statement contributes: `(this|self|that).$get = fn`
/// makes `fn` a suspect of a provider.
pub open spec fn spec_scan_expr_stmt(c: ScanView, e: Expr) -> ScanView {
    match e {
        Expr::Assign(a) => if spec_provider_get_assign(a) {
            spec_add_suspect(c, entry(a.right.spec_lo(), Some("provider"@), true, ident_name(*a.right), None, false))
        } else {
            c
        },
        _ => c,
    }
}

/// What an `@ngInject` comment on a method or key-value property
/// contributes.
pub open spec fn prop_request_step(c: ScanView, p: PropOrSpread) -> ScanView {
    match p {
        PropOrSpread::Method(m) => if spec_comments_result(m.key_comments@) == NgInjectResult::Inject {
            spec_add_suspect(
                spec_handle_explicit(c, m.function.lo, false),
                entry(m.function.lo, None, false, None, None, true),
            )
        } else {
            c
        },
        PropOrSpread::KeyValue(kv) => if spec_comments_result(kv.key_comments@) == NgInjectResult::Inject {
            spec_add_suspect(
                spec_handle_explicit(c, kv.value.spec_lo(), false),
                entry(kv.value.spec_lo(), None, false, ident_name(*kv.value), None, true),
            )
        } else {
            c
        },
        PropOrSpread::Other => c,
    }
}

/// The requests of the properties `ps`, in order.
pub open spec fn props_requests(c: ScanView, ps: Seq<PropOrSpread>) -> ScanView
    decreases ps.len(),
{
    if ps.len() == 0 {
        c
    } else {
        prop_request_step(props_requests(c, ps.drop_last()), ps.last())
    }
}

/// What an object literal contributes (before its children): the `$get`
/// function of a provider, then the `@ngInject` requests of its properties.
pub open spec fn spec_scan_object_lit(c: ScanView, o: ObjectLit) -> ScanView {
    let c1 = match spec_prop_value("$get"@, o.props@) {
        Some(g) => spec_add_suspect(c, entry(g.spec_lo(), Some("provider"@), true, ident_name(g), None, false)),
        None => c,
    };
    props_requests(c1, o.props@)
}

/// `{ controller: fn }` returned by a directive makes `fn` a suspect.
pub open spec fn directive_controller_step(c: ScanView, o: ObjectLit) -> ScanView {
    if spec_directive_return_object(o.props@) is Some {
        match spec_prop_value("controller"@, o.props@) {
            Some(ctrl) => spec_add_suspect(
                c,
                entry(ctrl.spec_lo(), Some("directive"@), true, ident_name(ctrl), None, false),
            ),
            None => c,
        }
    } else {
        c
    }
}

/// What a `return` statement contributes.
pub open spec fn spec_scan_return(c: ScanView, arg: Option<Expr>) -> ScanView {
    match arg {
        Some(Expr::Object(o)) => directive_controller_step(c, o),
        _ => c,
    }
}

/// The object literal that an arrow function returns directly, possibly in
/// parentheses.
pub open spec fn arrow_body_object(a: ArrowExpr) -> Option<ObjectLit> {
    match a.body {
        ArrowBody::Expr(b) => match *b {
            Expr::Paren(p) => match *p.expr {
                Expr::Object(o) => Some(o),
                _ => None,
            },
            Expr::Object(o) => Some(o),
            _ => None,
        },
        ArrowBody::Block(_) => None,
    }
}

/// A prologue request, or else the request of the comments.
pub open spec fn request_or_comments(r0: NgInjectResult, comments: Seq<String>) -> NgInjectResult {
    if r0 == NgInjectResult::NoDirective {
        spec_comments_result(comments)
    } else {
        r0
    }
}

/// What an arrow function contributes (before its children).
pub open spec fn spec_scan_arrow(c: ScanView, a: ArrowExpr) -> ScanView {
    let c1 = match arrow_body_object(a) {
        Some(o) => directive_controller_step(c, o),
        None => c,
    };
    spec_apply_request(c1, a.lo, request_or_comments(spec_from_opt(spec_arrow_directive(a)), a.comments@))
}

/// What a function expression contributes (before its children).
pub open spec fn spec_scan_fn_expr(c: ScanView, f: FnExpr) -> ScanView {
    spec_apply_request(
        c,
        f.function.lo,
        request_or_comments(spec_from_opt(spec_function_directive(f.function)), f.function.comments@),
    )
}

/// The request of a declaration: its own, else that of the comments at
/// `own_comments`, else that of the comments of its statement.
pub open spec fn decl_request(r0: NgInjectResult, own_comments: Seq<String>, stmt_comments: Seq<String>) -> NgInjectResult {
    if r0 != NgInjectResult::NoDirective {
        r0
    } else if spec_comments_result(own_comments) != NgInjectResult::NoDirective {
        spec_comments_result(own_comments)
    } else {
        spec_comments_result(stmt_comments)
    }
}

/// What a function declaration contributes (before its children).
pub open spec fn spec_scan_fn_decl(c: ScanView, d: FnDecl, stmt_lo: u32, stmt_comments: Seq<String>) -> ScanView {
    let c1 = spec_insert_decl(c, DeclView {
        params: param_names(d.function.params@),
        stmt_lo,
        name: d.ident.name@,
        decl_kind: DeclKind::FnDecl,
    });
    spec_apply_request(
        c1,
        d.function.lo,
        decl_request(spec_from_opt(spec_function_directive(d.function)), d.function.comments@, stmt_comments),
    )
}

/// The parameters of the function that ends an annotated array.
pub open spec fn annotated_array_params(e: Expr) -> Seq<Seq<char>> {
    match e {
        Expr::Array(a) => if a.elems@.len() > 0 {
            match a.elems@.last() {
                Some(l) => match l {
                    Expr::Fn(f) => param_names(f.function.params@),
                    Expr::Arrow(ar) => param_names(ar.params@),
                    _ => Seq::empty(),
                },
                None => Seq::empty(),
            }
        } else {
            Seq::empty()
        },
        _ => Seq::empty(),
    }
}

/// The parameters of the first constructor among `ms`.
pub open spec fn ctor_params_of(ms: Seq<ClassMember>) -> Seq<Seq<char>>
    decreases ms.len(),
{
    if ms.len() == 0 {
        Seq::empty()
    } else {
        match ms[0] {
            ClassMember::Constructor(k) => param_names(k.params@),
            _ => ctor_params_of(ms.drop_first()),
        }
    }
}

/// The request of the constructors among `ms`: the first that has an
/// `"ngInject"` prologue or an `@ngInject` / `@ngNoInject` comment decides.
pub open spec fn class_directive_of(ms: Seq<ClassMember>) -> NgInjectResult
    decreases ms.len(),
{
    if ms.len() == 0 {
        NgInjectResult::NoDirective
    } else {
        match ms[0] {
            ClassMember::Constructor(k) => if (match k.body {
                Some(b) => spec_prologue(b@) == Some(true),
                None => false,
            }) {
                NgInjectResult::Inject
            } else if spec_comments_result(k.comments@) != NgInjectResult::NoDirective {
                spec_comments_result(k.comments@)
            } else {
                class_directive_of(ms.drop_first())
            },
            _ => class_directive_of(ms.drop_first()),
        }
    }
}

/// The parameters of the initial value of a variable that holds a
/// function, arrow function or annotated array.
pub open spec fn var_init_params(e: Expr) -> Seq<Seq<char>> {
    match e {
        Expr::Fn(f) => param_names(f.function.params@),
        Expr::Arrow(a) => param_names(a.params@),
        Expr::Array(_) => annotated_array_params(e),
        _ => Seq::empty(),
    }
}

/// The declaration that a variable declarator records.
pub open spec fn var_decl_step(c: ScanView, d: VarDeclarator, stmt_lo: u32) -> ScanView {
    match d.name {
        Some(id) => match d.init {
            Some(init) => if spec_is_fn_or_arrow(*init) || spec_is_annotated_array(*init) {
                spec_insert_decl(c, DeclView {
                    params: var_init_params(*init),
                    stmt_lo,
                    name: id.name@,
                    decl_kind: DeclKind::VarDeclarator,
                })
            } else {
                match *init {
                    Expr::Class(ce) => spec_insert_decl(c, DeclView {
                        params: ctor_params_of(ce.class.members@),
                        stmt_lo,
                        name: id.name@,
                        decl_kind: DeclKind::VarDeclarator,
                    }),
                    _ => c,
                }
            },
            None => c,
        },
        None => c,
    }
}

/// The request of a variable declarator: its function's prologue, else the
/// comments of its statement, else (for a class) its constructor's request
/// or the comments of the class.
pub open spec fn var_request(d: VarDeclarator, stmt_comments: Seq<String>) -> NgInjectResult {
    let r0 = spec_var_declarator_directive(d);
    if r0 != NgInjectResult::NoDirective {
        r0
    } else if spec_comments_result(stmt_comments) != NgInjectResult::NoDirective {
        spec_comments_result(stmt_comments)
    } else {
        match d.init {
            Some(init) => match *init {
                Expr::Class(ce) => if class_directive_of(ce.class.members@) != NgInjectResult::NoDirective {
                    class_directive_of(ce.class.members@)
                } else {
                    spec_comments_result(ce.class.comments@)
                },
                _ => NgInjectResult::NoDirective,
            },
            None => NgInjectResult::NoDirective,
        }
    }
}

/// What a variable declarator contributes (before its children).
pub open spec fn spec_scan_var_declarator(c: ScanView, d: VarDeclarator, stmt_lo: u32, stmt_comments: Seq<String>) -> ScanView {
    spec_apply_request(var_decl_step(c, d, stmt_lo), d.lo, var_request(d, stmt_comments))
}

/// What a class declaration contributes (before its children); only an
/// `ngInject` request has an effect.
pub open spec fn spec_scan_class_decl(c: ScanView, d: ClassDecl, stmt_lo: u32, stmt_comments: Seq<String>) -> ScanView {
    let c1 = spec_insert_decl(c, DeclView {
        params: ctor_params_of(d.class.members@),
        stmt_lo,
        name: d.ident.name@,
        decl_kind: DeclKind::FnDecl,
    });
    if decl_request(class_directive_of(d.class.members@), d.class.comments@, stmt_comments) == NgInjectResult::Inject {
        spec_handle_explicit(c1, d.class.lo, false)
    } else {
        c1
    }
}

/// The parameters of the function that ends an annotated array.
pub fn extract_annotated_array_params(arr: &ArrayLit) -> (r: Vec<String>)
    ensures
        str_views(r@) == annotated_array_params(Expr::Array(*arr)),
{
    let n = arr.elems.len();
    if n > 0 {
        if let Some(last) = &arr.elems[n - 1] {
            return match last {
                Expr::Fn(f) => extract_params(&f.function.params),
                Expr::Arrow(a) => extract_pats_params(&a.params),
                _ => Vec::new(),
            };
        }
    }
    let r: Vec<String> = Vec::new();
    assert(str_views(r@) =~= Seq::<Seq<char>>::empty());
    r
}

/// The parameters of the first constructor of a class.
pub fn extract_class_constructor_params(class: &Class) -> (r: Vec<String>)
    ensures
        str_views(r@) == ctor_params_of(class.members@),
{
    let mut i: usize = 0;
    assert(class.members@.skip(0) =~= class.members@);
    while i < class.members.len()
        invariant
            i <= class.members@.len(),
            ctor_params_of(class.members@) == ctor_params_of(class.members@.skip(i as int)),
        decreases class.members@.len() - i,
    {
        assert(class.members@.skip(i as int).drop_first() =~= class.members@.skip(i + 1));
        assert(class.members@.skip(i as int)[0] == class.members@[i as int]);
        if let ClassMember::Constructor(ctor) = &class.members[i] {
            return extract_params(&ctor.params);
        }
        i = i + 1;
    }
    let r: Vec<String> = Vec::new();
    assert(str_views(r@) =~= Seq::<Seq<char>>::empty());
    r
}

/// The request that a class's constructors make.
pub fn check_class_for_ng_directive(class: &Class) -> (r: NgInjectResult)
    ensures
        r == class_directive_of(class.members@),
{
    let mut i: usize = 0;
    assert(class.members@.skip(0) =~= class.members@);
    while i < class.members.len()
        invariant
            i <= class.members@.len(),
            class_directive_of(class.members@) == class_directive_of(class.members@.skip(i as int)),
        decreases class.members@.len() - i,
    {
        assert(class.members@.skip(i as int).drop_first() =~= class.members@.skip(i + 1));
        assert(class.members@.skip(i as int)[0] == class.members@[i as int]);
        if let ClassMember::Constructor(ctor) = &class.members[i] {
            if let Some(body) = &ctor.body {
                if let Some(true) = inspect_fn_body_for_ng_directive(body) {
                    return NgInjectResult::Inject;
                }
            }
            let result = check_ng_inject_comment_at(&ctor.comments);
            if result != NgInjectResult::NoDirective {
                return result;
            }
        }
        i = i + 1;
    }
    NgInjectResult::NoDirective
}


impl<'a> Scanner<'a> {
    /// Records the request found at `lo`.
    fn apply_request(&mut self, lo: u32, result: NgInjectResult)
        ensures
            final(self).recorded() == spec_apply_request(old(self).recorded(), lo, result),
            final(self).same_place(old(self)),
    {
        if result == NgInjectResult::Inject {
            self.handle_ng_inject_explicit(lo, false);
        } else if result == NgInjectResult::NoInject {
            self.ctx.blocked.insert(lo);
        }
    }

    /// What an expression statement contributes; called before its
    /// children are scanned.
    pub fn scan_expr_stmt(&mut self, expr: &Expr)
        ensures
            final(self).recorded() == spec_scan_expr_stmt(old(self).recorded(), *expr),
            final(self).same_place(old(self)),
    {
        if let Expr::Assign(assign) = expr {
            if match_provider_get_assign(assign) {
                let target_lo = expr_span_lo(&assign.right);
                self.ctx.add_suspect(SuspectEntry {
                    target_lo,
                    method_name: Some("provider".to_string()),
                    context_dependent: true,
                    ref_name: extract_ident_name(&assign.right),
                    rename_name_lo: None,
                    ng_inject_explicit: false,
                    blocked: false,
                });
            }
        }
    }

    /// What an object literal contributes; called before its children are
    /// scanned.
    pub fn scan_object_lit(&mut self, obj: &ObjectLit)
        ensures
            final(self).recorded() == spec_scan_object_lit(old(self).recorded(), *obj),
            final(self).same_place(old(self)),
    {
        if match_provider_get_object(&obj.props) {
            if let Some(get_expr) = match_prop_in_object("$get", &obj.props) {
                self.ctx.add_suspect(SuspectEntry {
                    target_lo: expr_span_lo(get_expr),
                    method_name: Some("provider".to_string()),
                    context_dependent: true,
                    ref_name: extract_ident_name(get_expr),
                    rename_name_lo: None,
                    ng_inject_explicit: false,
                    blocked: false,
                });
            }
        }
        let ghost c1 = self.recorded();
        let mut i: usize = 0;
        while i < obj.props.len()
            invariant
                i <= obj.props@.len(),
                self.recorded() == props_requests(c1, obj.props@.take(i as int)),
                self.same_place(old(self)),
            decreases obj.props@.len() - i,
        {
            proof {
                assert(obj.props@.take(i + 1).drop_last() =~= obj.props@.take(i as int));
                assert(obj.props@.take(i + 1).last() == obj.props@[i as int]);
            }
            match &obj.props[i] {
                PropOrSpread::Method(m) => {
                    let result = check_ng_inject_comment_at(&m.key_comments);
                    if result == NgInjectResult::Inject {
                        let fn_lo = m.function.lo;
                        self.handle_ng_inject_explicit(fn_lo, false);
                        self.ctx.add_suspect(SuspectEntry {
                            target_lo: fn_lo,
                            method_name: None,
                            context_dependent: false,
                            ref_name: None,
                            rename_name_lo: None,
                            ng_inject_explicit: true,
                            blocked: false,
                        });
                    }
                },
                PropOrSpread::KeyValue(kv) => {
                    let result = check_ng_inject_comment_at(&kv.key_comments);
                    if result == NgInjectResult::Inject {
                        let val_lo = expr_span_lo(&kv.value);
                        self.handle_ng_inject_explicit(val_lo, false);
                        self.ctx.add_suspect(SuspectEntry {
                            target_lo: val_lo,
                            method_name: None,
                            context_dependent: false,
                            ref_name: extract_ident_name(&kv.value),
                            rename_name_lo: None,
                            ng_inject_explicit: true,
                            blocked: false,
                        });
                    }
                },
                PropOrSpread::Other => {},
            }
            i = i + 1;
        }
        assert(obj.props@.take(obj.props@.len() as int) =~= obj.props@);
    }

    /// `{ controller: fn }` returned by a directive.
    fn directive_controller(&mut self, obj_expr: &ObjectLit)
        ensures
            final(self).recorded() == directive_controller_step(old(self).recorded(), *obj_expr),
            final(self).same_place(old(self)),
    {
        if let Some(_sub) = match_directive_return_object(&obj_expr.props) {
            if let Some(ctrl_expr) = match_prop_in_object("controller", &obj_expr.props) {
                self.ctx.add_suspect(SuspectEntry {
                    target_lo: expr_span_lo(ctrl_expr),
                    method_name: Some("directive".to_string()),
                    context_dependent: true,
                    ref_name: extract_ident_name(ctrl_expr),
                    rename_name_lo: None,
                    ng_inject_explicit: false,
                    blocked: false,
                });
            }
        }
    }

    /// What a `return` statement contributes; called before its children
    /// are scanned.
    pub fn scan_return_stmt(&mut self, arg: Option<&Expr>)
        ensures
            final(self).recorded() == spec_scan_return(old(self).recorded(), match arg {
                Some(e) => Some(*e),
                None => None,
            }),
            final(self).same_place(old(self)),
    {
        if let Some(a) = arg {
            if let Expr::Object(obj_expr) = a {
                self.directive_controller(obj_expr);
            }
        }
    }

    /// What an arrow function contributes; called before its children are
    /// scanned.
    pub fn scan_arrow_expr(&mut self, arrow: &ArrowExpr)
        ensures
            final(self).recorded() == spec_scan_arrow(old(self).recorded(), *arrow),
            final(self).same_place(old(self)),
    {
        if let ArrowBody::Expr(body_expr) = &arrow.body {
            let inner_expr: &Expr = match &**body_expr {
                Expr::Paren(p) => &*p.expr,
                other => other,
            };
            if let Expr::Object(obj_expr) = inner_expr {
                self.directive_controller(obj_expr);
            }
        }
        let result = check_arrow_for_ng_directive(arrow);
        let result = if result == NgInjectResult::NoDirective {
            check_ng_inject_comment_at(&arrow.comments)
        } else {
            result
        };
        self.apply_request(arrow.lo, result);
    }

    /// What a function expression contributes; called before its children
    /// are scanned.
    pub fn scan_fn_expr(&mut self, fn_expr: &FnExpr)
        ensures
            final(self).recorded() == spec_scan_fn_expr(old(self).recorded(), *fn_expr),
            final(self).same_place(old(self)),
    {
        let result = check_fn_expr_for_ng_directive(fn_expr);
        let result = if result == NgInjectResult::NoDirective {
            check_ng_inject_comment_at(&fn_expr.function.comments)
        } else {
            result
        };
        self.apply_request(fn_expr.function.lo, result);
    }

    /// What a function declaration contributes; called before its children
    /// are scanned.
    pub fn scan_fn_decl(&mut self, fn_decl: &FnDecl)
        ensures
            final(self).recorded() == spec_scan_fn_decl(
                old(self).recorded(),
                *fn_decl,
                old(self).stmt_lo(),
                old(self).stmt_comments(),
            ),
            final(self).same_place(old(self)),
    {
        let params = extract_params(&fn_decl.function.params);
        self.ctx.decl_map.insert(DeclInfo {
            params,
            stmt_lo: self.current_stmt_lo,
            name: fn_decl.ident.name.clone(),
            decl_kind: DeclKind::FnDecl,
        });
        let result = check_fn_decl_for_ng_directive(fn_decl);
        let result = if result == NgInjectResult::NoDirective {
            let r = check_ng_inject_comment_at(&fn_decl.function.comments);
            if r != NgInjectResult::NoDirective {
                r
            } else {
                check_ng_inject_comment_at(&self.current_stmt_comments)
            }
        } else {
            result
        };
        self.apply_request(fn_decl.function.lo, result);
    }

    /// The declaration that a variable declarator records.
    fn record_var_decl(&mut self, decl: &VarDeclarator)
        ensures
            final(self).recorded() == var_decl_step(old(self).recorded(), *decl, old(self).stmt_lo()),
            final(self).same_place(old(self)),
    {
        if let Some(id) = &decl.name {
            if let Some(init) = &decl.init {
                if is_fn_or_arrow(init) || is_annotated_array(init) {
                    let params = match &**init {
                        Expr::Fn(f) => extract_params(&f.function.params),
                        Expr::Arrow(a) => extract_pats_params(&a.params),
                        Expr::Array(arr) => extract_annotated_array_params(arr),
                        _ => Vec::new(),
                    };
                    self.ctx.decl_map.insert(DeclInfo {
                        params,
                        stmt_lo: self.current_stmt_lo,
                        name: id.name.clone(),
                        decl_kind: DeclKind::VarDeclarator,
                    });
                } else if let Expr::Class(class_expr) = &**init {
                    let params = extract_class_constructor_params(&class_expr.class);
                    self.ctx.decl_map.insert(DeclInfo {
                        params,
                        stmt_lo: self.current_stmt_lo,
                        name: id.name.clone(),
                        decl_kind: DeclKind::VarDeclarator,
                    });
                }
            }
        }
    }

    /// What a variable declarator contributes; called before its children
    /// are scanned.
    pub fn scan_var_declarator(&mut self, decl: &VarDeclarator)
        ensures
            final(self).recorded() == spec_scan_var_declarator(
                old(self).recorded(),
                *decl,
                old(self).stmt_lo(),
                old(self).stmt_comments(),
            ),
            final(self).same_place(old(self)),
    {
        self.record_var_decl(decl);
        let result = check_var_declarator_for_ng_directive(decl);
        let result = if result == NgInjectResult::NoDirective {
            let r = check_ng_inject_comment_at(&self.current_stmt_comments);
            if r != NgInjectResult::NoDirective {
                r
            } else {
                match &decl.init {
                    Some(init) => match &**init {
                        Expr::Class(class_expr) => {
                            let cresult = check_class_for_ng_directive(&class_expr.class);
                            if cresult != NgInjectResult::NoDirective {
                                cresult
                            } else {
                                check_ng_inject_comment_at(&class_expr.class.comments)
                            }
                        },
                        _ => NgInjectResult::NoDirective,
                    },
                    None => NgInjectResult::NoDirective,
                }
            }
        } else {
            result
        };
        self.apply_request(decl.lo, result);
    }

    /// What a class declaration contributes; called before its children are
    /// scanned.
    pub fn scan_class_decl(&mut self, class_decl: &ClassDecl)
        ensures
            final(self).recorded() == spec_scan_class_decl(
                old(self).recorded(),
                *class_decl,
                old(self).stmt_lo(),
                old(self).stmt_comments(),
            ),
            final(self).same_place(old(self)),
    {
        let params = extract_class_constructor_params(&class_decl.class);
        self.ctx.decl_map.insert(DeclInfo {
            params,
            stmt_lo: self.current_stmt_lo,
            name: class_decl.ident.name.clone(),
            decl_kind: DeclKind::FnDecl,
        });
        let result = check_class_for_ng_directive(&class_decl.class);
        let result = if result == NgInjectResult::NoDirective {
            let r = check_ng_inject_comment_at(&class_decl.class.comments);
            if r != NgInjectResult::NoDirective {
                r
            } else {
                check_ng_inject_comment_at(&self.current_stmt_comments)
            }
        } else {
            result
        };
        if result == NgInjectResult::Inject {
            self.handle_ng_inject_explicit(class_decl.class.lo, false);
        }
    }
}

} // verus!

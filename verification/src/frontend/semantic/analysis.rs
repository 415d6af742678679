//! The semantic pass chain: from the resolved items, signatures and bodies
//! to typed items, body environments, expression and statement types,
//! control flow and typed bodies, with the issues of every stage.

use crate::collections::SortedMap;
use crate::frontend::resolver::{GlobalItemTable, ResolvedBodyTable, ResolvedImports};
use crate::frontend::semantic::body_env::{build_body_type_environments, body_envs_built, BodyEnvIssue, BodyTypeEnvironmentTable};
use crate::frontend::semantic::control_flow::{check_control_flow_with_tables, flow_table_matches, ControlFlowIssue, ControlFlowTable};
use crate::frontend::semantic::external_lookup::ExternalSemanticLookup;
use crate::frontend::semantic::hir_input::SemanticHirInput;
use crate::frontend::semantic::item_table::{build_typed_item_table, typed_item_table_built, TypedItemTable, TypedItemTableIssue};
use crate::frontend::source::FileId;
use crate::midend::type_check::expr_check::{
    check_expression_types_with_external_lookup, expr_check_fold, expr_table_state, ExprCheckIssue, ExpressionTypeTable,
};
use crate::midend::type_check::signatures::{SignatureTypingIssue, TypedSignatureTable};
use crate::midend::type_check::stmt_check::{check_statements_with_expression_types, stmt_table_matches, StatementTypeTable, StmtCheckIssue};
use crate::midend::type_check::typed_bodies::{build_typed_body_table, typed_bodies_built, TypedBodyTable, TypedBodyTableIssue};
use crate::frontend::semantic::signature_typing::{signatures_typed, type_declaration_signatures};
use vstd::prelude::*;

verus! {

/// Everything the semantic passes produce for one resolved program.
pub struct SemanticAnalysis {
    pub global_items: GlobalItemTable,
    pub signatures: TypedSignatureTable,
    pub typed_items: TypedItemTable,
    pub resolved_bodies: ResolvedBodyTable,
    pub body_envs: BodyTypeEnvironmentTable,
    pub expr_types: ExpressionTypeTable,
    pub stmt_types: StatementTypeTable,
    pub control_flow: ControlFlowTable,
    pub typed_bodies: TypedBodyTable,
}

/// The issues of every stage, borrowed from an analysis.
pub struct SemanticAnalysisIssues<'a> {
    pub signature: &'a [SignatureTypingIssue],
    pub typed_item: &'a [TypedItemTableIssue],
    pub body_env: &'a [BodyEnvIssue],
    pub expr: &'a [ExprCheckIssue],
    pub stmt: &'a [StmtCheckIssue],
    pub control_flow: &'a [ControlFlowIssue],
    pub typed_body: &'a [TypedBodyTableIssue],
}

impl<'a> SemanticAnalysisIssues<'a> {
    /// True when no stage reported an issue.
    pub fn is_empty(&self) -> (b: bool)
        ensures
            b == (self.signature@.len() == 0 && self.typed_item@.len() == 0 && self.body_env@.len() == 0
                && self.expr@.len() == 0 && self.stmt@.len() == 0 && self.control_flow@.len() == 0
                && self.typed_body@.len() == 0),
    {
        self.signature.len() == 0 && self.typed_item.len() == 0 && self.body_env.len() == 0 && self.expr.len() == 0
            && self.stmt.len() == 0 && self.control_flow.len() == 0 && self.typed_body.len() == 0
    }
}

impl SemanticAnalysis {
    /// The issues of every stage, without copying them.
    pub fn issues(&self) -> (r: SemanticAnalysisIssues<'_>)
        ensures
            r.signature@ == self.signatures.issues@,
            r.typed_item@ == self.typed_items.spec_issues(),
            r.body_env@ == self.body_envs.spec_issues(),
            r.expr@ == self.expr_types.spec_issues(),
            r.stmt@ == self.stmt_types.spec_issues(),
            r.control_flow@ == self.control_flow.spec_issues(),
            r.typed_body@ == self.typed_bodies.spec_issues(),
    {
        SemanticAnalysisIssues {
            signature: self.signatures.issues.as_slice(),
            typed_item: self.typed_items.issues().as_slice(),
            body_env: self.body_envs.issues().as_slice(),
            expr: self.expr_types.issues().as_slice(),
            stmt: self.stmt_types.issues().as_slice(),
            control_flow: self.control_flow.issues().as_slice(),
            typed_body: self.typed_bodies.issues().as_slice(),
        }
    }
}

/// Whether `r` is the pass chain run on the given resolved program: each
/// table built from the ones before it.
pub open spec fn analysis_of(
    r: SemanticAnalysis,
    hir_input: SemanticHirInput,
    global_items: GlobalItemTable,
    signatures: TypedSignatureTable,
    resolved_bodies: ResolvedBodyTable,
    imports: SortedMap<FileId, ResolvedImports>,
    external_lookup: ExternalSemanticLookup,
) -> bool {
    &&& r.global_items == global_items
    &&& r.signatures == signatures
    &&& r.resolved_bodies == resolved_bodies
    &&& typed_item_table_built(r.typed_items, global_items, signatures)
    &&& body_envs_built(r.body_envs, resolved_bodies.bodies@, r.typed_items)
    &&& expr_table_state(r.expr_types) == expr_check_fold(hir_input, r.typed_items, r.body_envs, imports, external_lookup, resolved_bodies.bodies@)
    &&& stmt_table_matches(r.stmt_types, hir_input, r.body_envs, r.expr_types, resolved_bodies.bodies@)
    &&& flow_table_matches(r.control_flow, hir_input, r.body_envs, r.expr_types, r.stmt_types)
    &&& typed_bodies_built(r.typed_bodies, resolved_bodies.bodies@, r.body_envs, r.expr_types, r.stmt_types, r.control_flow)
}

/// Runs the semantic passes on a resolved program whose declaration
/// signatures are already typed, with `external_lookup` answering what lies
/// outside it.
pub fn analyze_semantics_with_signatures(
    hir_input: &SemanticHirInput,
    global_items: GlobalItemTable,
    signatures: TypedSignatureTable,
    resolved_bodies: ResolvedBodyTable,
    imports: &SortedMap<FileId, ResolvedImports>,
    external_lookup: &ExternalSemanticLookup,
) -> (r: SemanticAnalysis)
    requires
        forall|i: int| 0 <= i < resolved_bodies.bodies@.len() ==> (#[trigger] resolved_bodies.bodies@[i]).locals@.len() < usize::MAX,
    ensures
        analysis_of(r, *hir_input, global_items, signatures, resolved_bodies, *imports, *external_lookup),
{
    let typed_items = build_typed_item_table(&global_items, &signatures);
    let body_envs = build_body_type_environments(&resolved_bodies, &typed_items);
    let expr_types = check_expression_types_with_external_lookup(hir_input, &typed_items, &resolved_bodies, &body_envs, imports, external_lookup);
    let stmt_types = check_statements_with_expression_types(hir_input, &resolved_bodies, &body_envs, &expr_types);
    let control_flow = check_control_flow_with_tables(hir_input, &body_envs, &expr_types, &stmt_types);
    let typed_bodies = build_typed_body_table(&resolved_bodies, &body_envs, &expr_types, &stmt_types, &control_flow);
    SemanticAnalysis {
        global_items,
        signatures,
        typed_items,
        resolved_bodies,
        body_envs,
        expr_types,
        stmt_types,
        control_flow,
        typed_bodies,
    }
}

/// Runs the semantic passes on a resolved program, with `external_lookup`
/// answering what lies outside it: the declaration signatures are typed
/// first (see [`type_declaration_signatures`]).
pub fn analyze_semantics_with_external_lookup(
    hir_input: &SemanticHirInput,
    global_items: GlobalItemTable,
    resolved_bodies: ResolvedBodyTable,
    imports: &SortedMap<FileId, ResolvedImports>,
    external_lookup: &ExternalSemanticLookup,
) -> (r: SemanticAnalysis)
    requires
        forall|i: int| 0 <= i < resolved_bodies.bodies@.len() ==> (#[trigger] resolved_bodies.bodies@[i]).locals@.len() < usize::MAX,
    ensures
        signatures_typed(r.signatures, *hir_input, global_items@),
        analysis_of(r, *hir_input, global_items, r.signatures, resolved_bodies, *imports, *external_lookup),
{
    let signatures = type_declaration_signatures(hir_input, &global_items);
    analyze_semantics_with_signatures(hir_input, global_items, signatures, resolved_bodies, imports, external_lookup)
}

/// `external` answers nothing, as a new lookup does.
pub open spec fn lookup_is_empty(external: ExternalSemanticLookup) -> bool {
    &&& forall|root: Seq<char>, path: Seq<Seq<char>>| #[trigger] external.spec_root_function(root, path) is None
    &&& forall|root: Seq<char>, path: Seq<Seq<char>>| #[trigger] external.spec_root_definition(root, path) is None
    &&& forall|lib: Seq<char>, name: Seq<char>| #[trigger] external.spec_extern_function(lib, name) is None
    &&& forall|lib: Seq<char>, name: Seq<char>| #[trigger] external.spec_extern_definition(lib, name) is None
    &&& forall|lib: Seq<char>| !#[trigger] external.spec_is_library(lib)
    &&& forall|name: Seq<char>| #[trigger] external.spec_namespace_of(name) is None
}

/// Runs the semantic passes on a resolved program with nothing outside it:
/// the analysis made with an empty external lookup.
pub fn analyze_semantics(
    hir_input: &SemanticHirInput,
    global_items: GlobalItemTable,
    resolved_bodies: ResolvedBodyTable,
    imports: &SortedMap<FileId, ResolvedImports>,
) -> (r: SemanticAnalysis)
    requires
        forall|i: int| 0 <= i < resolved_bodies.bodies@.len() ==> (#[trigger] resolved_bodies.bodies@[i]).locals@.len() < usize::MAX,
    ensures
        signatures_typed(r.signatures, *hir_input, global_items@),
        exists|external: ExternalSemanticLookup|
            lookup_is_empty(external) && analysis_of(r, *hir_input, global_items, r.signatures, resolved_bodies, *imports, external),
{
    let external = ExternalSemanticLookup::new();
    let r = analyze_semantics_with_external_lookup(hir_input, global_items, resolved_bodies, imports, &external);
    proof {
        assert(lookup_is_empty(external));
    }
    r
}

} // verus!

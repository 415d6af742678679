//! The lowered (HIR) form of a source file, as far as semantic analysis and
//! completion read it: nodes stored by id, each with its origin span.

use crate::collections::sorted_map::SortedMap;
use crate::collections::MapKey;
use crate::frontend::ast::Span;
use crate::frontend::source::FileId;
use vstd::prelude::*;

verus! {

/// Identifier of an expression within a HIR module.
#[derive(Debug, Clone, Copy, PartialEq, Eq, PartialOrd, Ord, Structural)]
pub struct HirExprId(pub u32);

impl HirExprId {
    /// Creates an id from its raw value.
    pub fn new(raw: u32) -> (id: Self)
        ensures
            id.0 == raw,
    {
        HirExprId(raw)
    }
}

impl MapKey for HirExprId {
    open spec fn key_lt(self, other: Self) -> bool {
        self.0 < other.0
    }

    proof fn lemma_key_lt_irreflexive(a: Self) {
    }

    proof fn lemma_key_lt_transitive(a: Self, b: Self, c: Self) {
    }

    proof fn lemma_key_lt_total(a: Self, b: Self) {
    }

    fn less_than(&self, other: &Self) -> (r: bool) {
        self.0 < other.0
    }

    fn same_key(&self, other: &Self) -> (r: bool) {
        self.0 == other.0
    }

    fn copy_key(&self) -> (r: Self) {
        *self
    }
}

/// Identifier of a statement within a HIR module.
#[derive(Debug, Clone, Copy, PartialEq, Eq, PartialOrd, Ord, Structural)]
pub struct HirStmtId(pub u32);

impl HirStmtId {
    /// Creates an id from its raw value.
    pub fn new(raw: u32) -> (id: Self)
        ensures
            id.0 == raw,
    {
        HirStmtId(raw)
    }
}

impl MapKey for HirStmtId {
    open spec fn key_lt(self, other: Self) -> bool {
        self.0 < other.0
    }

    proof fn lemma_key_lt_irreflexive(a: Self) {
    }

    proof fn lemma_key_lt_transitive(a: Self, b: Self, c: Self) {
    }

    proof fn lemma_key_lt_total(a: Self, b: Self) {
    }

    fn less_than(&self, other: &Self) -> (r: bool) {
        self.0 < other.0
    }

    fn same_key(&self, other: &Self) -> (r: bool) {
        self.0 == other.0
    }

    fn copy_key(&self) -> (r: Self) {
        *self
    }
}

/// Identifier of a body within a HIR module.
#[derive(Debug, Clone, Copy, PartialEq, Eq, PartialOrd, Ord, Structural)]
pub struct HirBodyId(pub u32);

impl HirBodyId {
    /// Creates an id from its raw value.
    pub fn new(raw: u32) -> (id: Self)
        ensures
            id.0 == raw,
    {
        HirBodyId(raw)
    }
}

impl MapKey for HirBodyId {
    open spec fn key_lt(self, other: Self) -> bool {
        self.0 < other.0
    }

    proof fn lemma_key_lt_irreflexive(a: Self) {
    }

    proof fn lemma_key_lt_transitive(a: Self, b: Self, c: Self) {
    }

    proof fn lemma_key_lt_total(a: Self, b: Self) {
    }

    fn less_than(&self, other: &Self) -> (r: bool) {
        self.0 < other.0
    }

    fn same_key(&self, other: &Self) -> (r: bool) {
        self.0 == other.0
    }

    fn copy_key(&self) -> (r: Self) {
        *self
    }
}

/// Identifier of an item within a HIR module.
#[derive(Debug, Clone, Copy, PartialEq, Eq, PartialOrd, Ord, Structural)]
pub struct HirItemId(pub u32);

impl HirItemId {
    /// Creates an id from its raw value.
    pub fn new(raw: u32) -> (id: Self)
        ensures
            id.0 == raw,
    {
        HirItemId(raw)
    }
}

impl MapKey for HirItemId {
    open spec fn key_lt(self, other: Self) -> bool {
        self.0 < other.0
    }

    proof fn lemma_key_lt_irreflexive(a: Self) {
    }

    proof fn lemma_key_lt_transitive(a: Self, b: Self, c: Self) {
    }

    proof fn lemma_key_lt_total(a: Self, b: Self) {
    }

    fn less_than(&self, other: &Self) -> (r: bool) {
        self.0 < other.0
    }

    fn same_key(&self, other: &Self) -> (r: bool) {
        self.0 == other.0
    }

    fn copy_key(&self) -> (r: Self) {
        *self
    }
}

/// Identifier of a pattern within a HIR module.
#[derive(Debug, Clone, Copy, PartialEq, Eq, PartialOrd, Ord, Structural)]
pub struct HirPatId(pub u32);

impl HirPatId {
    /// Creates an id from its raw value.
    pub fn new(raw: u32) -> (id: Self)
        ensures
            id.0 == raw,
    {
        HirPatId(raw)
    }
}

impl MapKey for HirPatId {
    open spec fn key_lt(self, other: Self) -> bool {
        self.0 < other.0
    }

    proof fn lemma_key_lt_irreflexive(a: Self) {
    }

    proof fn lemma_key_lt_transitive(a: Self, b: Self, c: Self) {
    }

    proof fn lemma_key_lt_total(a: Self, b: Self) {
    }

    fn less_than(&self, other: &Self) -> (r: bool) {
        self.0 < other.0
    }

    fn same_key(&self, other: &Self) -> (r: bool) {
        self.0 == other.0
    }

    fn copy_key(&self) -> (r: Self) {
        *self
    }
}

/// Identifier of a written type within a HIR module.
#[derive(Debug, Clone, Copy, PartialEq, Eq, PartialOrd, Ord, Structural)]
pub struct HirTypeId(pub u32);

impl HirTypeId {
    /// Creates an id from its raw value.
    pub fn new(raw: u32) -> (id: Self)
        ensures
            id.0 == raw,
    {
        HirTypeId(raw)
    }
}

impl MapKey for HirTypeId {
    open spec fn key_lt(self, other: Self) -> bool {
        self.0 < other.0
    }

    proof fn lemma_key_lt_irreflexive(a: Self) {
    }

    proof fn lemma_key_lt_transitive(a: Self, b: Self, c: Self) {
    }

    proof fn lemma_key_lt_total(a: Self, b: Self) {
    }

    fn less_than(&self, other: &Self) -> (r: bool) {
        self.0 < other.0
    }

    fn same_key(&self, other: &Self) -> (r: bool) {
        self.0 == other.0
    }

    fn copy_key(&self) -> (r: Self) {
        *self
    }
}

/// Where a HIR node came from.
#[derive(Debug, Clone, Copy, PartialEq, Eq, Structural)]
pub struct HirOrigin {
    pub file_id: FileId,
    pub span: Span,
}

impl HirOrigin {
    /// An origin directly in the source text of `file_id`.
    pub fn direct_source(file_id: FileId, span: Span) -> (o: Self)
        ensures
            o.file_id == file_id,
            o.span == span,
    {
        HirOrigin { file_id, span }
    }
}

/// An element of an array expression.
#[derive(Debug, Clone, Copy, PartialEq, Eq, Structural)]
pub enum HirArrayElement {
    Expr(HirExprId),
    Spread(HirExprId),
}

/// A call argument, with its label when it was written `label: value`.
#[derive(Debug)]
pub struct HirCallArg {
    pub label: Option<String>,
    pub value: HirExprId,
}

/// A field of a struct literal.
#[derive(Debug, Clone, Copy, PartialEq, Eq, Structural)]
pub enum HirStructExprField {
    Named { value: HirExprId },
    Spread { value: HirExprId },
}

/// An arm of a match expression.
#[derive(Debug, Clone, Copy, PartialEq, Eq, Structural)]
pub struct HirMatchArm {
    pub pat: HirPatId,
    pub expr: HirExprId,
}

/// The kind of a literal.
#[derive(Debug, Clone, Copy, PartialEq, Eq, Structural)]
pub enum HirLiteral {
    Integer,
    Float,
    Char,
    Boolean,
    String,
}

/// A unary operator.
#[derive(Debug, Clone, Copy, PartialEq, Eq, Structural)]
pub enum HirUnaryOp {
    Negate,
    Not,
    BitNot,
}

/// A binary operator.
#[derive(Debug, Clone, Copy, PartialEq, Eq, Structural)]
pub enum HirBinaryOp {
    Add,
    Subtract,
    Multiply,
    Divide,
    Remainder,
    LogicalAnd,
    LogicalOr,
    Equal,
    NotEqual,
    Less,
    LessEqual,
    Greater,
    GreaterEqual,
    NullCoalescing,
    BitOr,
    BitXor,
    BitAnd,
    ShiftLeft,
    ShiftRight,
}

/// Whether a binding may be reassigned.
#[derive(Debug, Clone, Copy, PartialEq, Eq, Structural)]
pub enum HirMutability {
    Immutable,
    Mutable,
}

/// Expression kinds, with the child nodes each one holds.
#[derive(Debug)]
pub enum HirExprKind {
    Literal(HirLiteral),
    Path { segments: Vec<String> },
    Array { elements: Vec<HirArrayElement> },
    Call { callee: HirExprId, args: Vec<HirCallArg> },
    Block { body: HirBodyId },
    If { condition: HirExprId, then_body: HirBodyId, else_expr: Option<HirExprId> },
    While { condition: HirExprId, body: HirBodyId },
    For { pat: HirPatId, iterator: HirExprId, body: HirBodyId },
    Return { value: Option<HirExprId> },
    Assign { op: Option<HirBinaryOp>, target: HirExprId, value: HirExprId },
    Unary { op: HirUnaryOp, expr: HirExprId },
    Binary { op: HirBinaryOp, lhs: HirExprId, rhs: HirExprId },
    Field { base: HirExprId, name: String },
    OptionalField { base: HirExprId, name: String },
    NamespaceField { base: HirExprId, name: String },
    MethodCall { receiver: HirExprId, name: String, args: Vec<HirCallArg> },
    Index { base: HirExprId, index: HirExprId },
    OptionalIndex { base: HirExprId, index: HirExprId },
    Tuple { elements: Vec<HirExprId> },
    Struct { fields: Vec<HirStructExprField> },
    Match { subject: HirExprId, arms: Vec<HirMatchArm> },
    Closure { body: HirBodyId },
    ForceUnwrap { expr: HirExprId },
    Cast { expr: HirExprId },
    Range { start: Option<HirExprId>, end: Option<HirExprId> },
    Spread { expr: HirExprId },
    Try { expr: HirExprId },
    Break,
    Continue,
}

/// An expression node.
#[derive(Debug)]
pub struct HirExpr {
    pub origin: HirOrigin,
    pub kind: HirExprKind,
}

/// Statement kinds.
#[derive(Debug, Clone, Copy, PartialEq, Eq, Structural)]
pub enum HirStmtKind {
    Let { pat: HirPatId, value: Option<HirExprId>, mutability: HirMutability },
    Expr { expr: HirExprId },
    Semi { expr: HirExprId },
    Item { item: HirItemId },
}

/// A statement node.
#[derive(Debug, Clone, Copy, PartialEq, Eq, Structural)]
pub struct HirStmt {
    pub origin: HirOrigin,
    pub kind: HirStmtKind,
}

/// A block body: its statements in order and an optional tail expression.
#[derive(Debug)]
pub struct HirBody {
    pub origin: HirOrigin,
    pub stmts: Vec<HirStmtId>,
    pub tail_expr: Option<HirExprId>,
}

/// A type as written in a declaration.
#[derive(Debug)]
pub enum HirTypeKind {
    Path { segments: Vec<String> },
    Reference { mutable: bool, inner: HirTypeId },
    Pointer { mutable: bool, inner: HirTypeId },
    GenericApplication { base: HirTypeId, args: Vec<HirTypeId> },
    SelfType,
    Optional { inner: HirTypeId },
    Result { ok: HirTypeId, err: HirTypeId },
}

/// A written type node.
#[derive(Debug)]
pub struct HirType {
    pub origin: HirOrigin,
    pub kind: HirTypeKind,
}

/// How a parameter is labelled at call sites.
#[derive(Debug)]
pub enum HirParamLabel {
    /// No label.
    Unlabeled,
    /// An explicit label.
    Explicit(String),
    /// The parameter's name is its label.
    FromName,
}

/// A declared parameter: its label and written type.
#[derive(Debug)]
pub struct HirParam {
    pub label: HirParamLabel,
    pub ty: HirTypeId,
}

/// A declared function signature.
#[derive(Debug)]
pub struct HirFunctionSignature {
    pub params: Vec<HirParam>,
    pub return_type: Option<HirTypeId>,
}

/// A function declared in an item, with its signature and body; an
/// initializer when `is_initializer` holds.
#[derive(Debug)]
pub struct HirFunctionDecl {
    pub name: String,
    pub body: HirBodyId,
    pub signature: HirFunctionSignature,
    pub is_initializer: bool,
}

/// A protocol requirement, with its signature and its default body when it
/// has one; an initializer requirement when `is_initializer` holds.
#[derive(Debug)]
pub struct HirProtocolFunction {
    pub name: String,
    pub default_body: Option<HirBodyId>,
    pub signature: HirFunctionSignature,
    pub is_initializer: bool,
}

/// A struct field.
#[derive(Debug)]
pub struct HirStructField {
    pub name: String,
    pub ty: HirTypeId,
}

/// An enum variant with its payload types.
#[derive(Debug)]
pub struct HirEnumVariant {
    pub name: String,
    pub payload: Vec<HirTypeId>,
}

/// A protocol property.
#[derive(Debug)]
pub struct HirProtocolProperty {
    pub name: String,
    pub ty: HirTypeId,
}

/// A protocol's associated type with its bounds.
#[derive(Debug)]
pub struct HirAssociatedType {
    pub name: String,
    pub bounds: Vec<HirTypeId>,
}

/// Item kinds, with what they declare.
#[derive(Debug)]
pub enum HirItemKind {
    Function { name: String, body: HirBodyId, signature: HirFunctionSignature },
    Struct { name: String, functions: Vec<HirFunctionDecl>, fields: Vec<HirStructField> },
    Enum { name: String, functions: Vec<HirFunctionDecl>, variants: Vec<HirEnumVariant> },
    Protocol {
        name: String,
        functions: Vec<HirProtocolFunction>,
        inherited_types: Vec<HirTypeId>,
        properties: Vec<HirProtocolProperty>,
        associated_types: Vec<HirAssociatedType>,
    },
    Impl { functions: Vec<HirFunctionDecl>, target: HirTypeId, conformance: Option<HirTypeId> },
    Extern,
    Use,
}

/// An item node.
#[derive(Debug)]
pub struct HirItem {
    pub origin: HirOrigin,
    pub kind: HirItemKind,
}

/// Pattern kinds.
#[derive(Debug)]
pub enum HirPatKind {
    Binding { name: String },
    Wildcard,
    Tuple { elements: Vec<HirPatId> },
}

/// A pattern node.
#[derive(Debug)]
pub struct HirPat {
    pub origin: HirOrigin,
    pub kind: HirPatKind,
}

/// All HIR nodes of one file, by id.
pub struct HirModule {
    pub items: SortedMap<HirItemId, HirItem>,
    pub bodies: SortedMap<HirBodyId, HirBody>,
    pub stmts: SortedMap<HirStmtId, HirStmt>,
    pub exprs: SortedMap<HirExprId, HirExpr>,
    pub patterns: SortedMap<HirPatId, HirPat>,
    pub types: SortedMap<HirTypeId, HirType>,
}

impl HirModule {
    /// A module with no nodes.
    pub fn new() -> (m: Self)
        ensures
            m.items@.len() == 0,
            m.bodies@.len() == 0,
            m.stmts@.len() == 0,
            m.exprs@.len() == 0,
            m.patterns@.len() == 0,
            m.types@.len() == 0,
    {
        HirModule {
            items: SortedMap::new(),
            bodies: SortedMap::new(),
            stmts: SortedMap::new(),
            exprs: SortedMap::new(),
            patterns: SortedMap::new(),
            types: SortedMap::new(),
        }
    }
}

/// How many levels a walk of the module may descend: its number of nodes
/// (bodies, statements and expressions) plus one, capped at `usize::MAX`.
/// A walk of an acyclic module never descends further.
pub open spec fn walk_fuel(m: HirModule) -> nat {
    let n = m.bodies@.len() + m.stmts@.len() + m.exprs@.len() + 1;
    if n <= usize::MAX {
        n
    } else {
        usize::MAX as nat
    }
}

impl HirModule {
    /// See [`walk_fuel`].
    pub fn walk_fuel(&self) -> (r: usize)
        ensures
            r == walk_fuel(*self),
    {
        self.bodies.len().saturating_add(self.stmts.len()).saturating_add(self.exprs.len()).saturating_add(1)
    }
}

/// A lowered file: its id and its top-level items in order.
#[derive(Debug, Clone)]
pub struct HirFile {
    pub file_id: FileId,
    pub root_items: Vec<HirItemId>,
}

} // verus!

//! The syntax tree.
//!
//! Each type of the tree has a model in which lists are sequences and names
//! are character sequences; contracts speak of the models.
use vstd::prelude::*;

use crate::lexer::lang_type::LangType;
use crate::lexer::position::Position;
use crate::symbol::ids::EnumId;
use crate::symbol::ids::StructId;
use crate::symbol::ids::SumId;
use crate::symbol::module::ModuleSymbols;
use crate::symbol::module::SymbolsModel;
use crate::symbol::module::Visibility;

verus! {

/// A literal. A float is kept as the bits of its `f64`; a string as its index
/// in the program's table of string literals.
#[derive(Debug, Clone, Copy, PartialEq, Eq, Structural)]
pub enum LiteralValue {
    Integer(i64),
    Float(u64),
    String(usize),
    Bool(bool),
}

#[derive(Debug, Clone, Copy, PartialEq, Eq, Structural)]
pub enum BinaryOp {
    Add,
    Sub,
    Mul,
    Div,
    Mod,
    And,
    Or,
    Xor,
    LeftShift,
    RightShift,
    LogicalAnd,
    LogicalOr,
}

#[derive(Debug, Clone, Copy, PartialEq, Eq, Structural)]
pub enum ComparisonOp {
    Greater,
    Less,
    GreaterEqual,
    LessEqual,
    Equal,
    NotEqual,
}

/// The name a pattern binds and its type, or nothing for `_`.
pub type Binder = Option<(String, LangType)>;

/// The model of a binder.
pub type BinderModel = Option<(Seq<char>, LangType)>;

#[derive(Debug, PartialEq, Eq)]
pub enum ExprKind {
    Literal(LiteralValue),
    Variable(String),
    Binary { left: Box<Expression>, op: BinaryOp, right: Box<Expression> },
    Comparison { left: Box<Expression>, op: ComparisonOp, right: Box<Expression> },
    /// `&expr`
    Reference(Box<Expression>),
    /// `*expr`
    Dereference(Box<Expression>),
    /// `!expr`
    UnaryNot(Box<Expression>),
    /// `~expr`
    BitwiseNot(Box<Expression>),
    FunctionCall { name: String, args: Vec<Expression> },
    /// `base.name(args)` whose callee is found once the type of `base` is
    /// known.
    MethodCall { base: Box<Expression>, name: String, args: Vec<Expression> },
    Cast { expr: Box<Expression>, target_type: LangType },
    Alloc { alloc_type: LangType, count: Box<Expression> },
    ListInitializer(Vec<Expression>),
    /// `base.field`; a pointer to a type-struct is followed.
    FieldAccess { base: Box<Expression>, field: String },
    /// `Name { field = expr, ... }`, fields in source order.
    StructLiteral { struct_id: StructId, fields: Vec<(String, Expression)> },
    /// `EnumName.Variant`: its own node, not an integer literal, so that it
    /// never coerces to a bare integer.
    EnumValue { enum_id: EnumId, value: i64 },
    /// `SumName.Variant(args)`, the variant given by its index.
    SumConstruct { sum_id: SumId, variant: u32, args: Vec<Expression> },
    /// `scrutinee is Variant`, which binds nothing.
    Is { scrutinee: Box<Expression>, sum_id: SumId, variant: u32 },
    /// `scrutinee is Variant(a, _)`: legal only as a conjunct of a condition.
    IsBinding { scrutinee: Box<Expression>, sum_id: SumId, variant: u32, binders: Vec<Binder> },
    /// A named function as a value.
    FunctionRef(String),
    /// A call through a function pointer.
    IndirectCall { callee: Box<Expression>, args: Vec<Expression> },
    SizeOf(LangType),
    Null,
    /// `{ stmt* }` as an expression; its value comes from a `return` inside.
    ValueBlock(Vec<Statement>),
}

#[derive(Debug, PartialEq, Eq)]
pub struct Expression {
    pub kind: ExprKind,
    pub expr_type: LangType,
    pub pos: Position,
}

/// One `case` pattern.
#[derive(Debug, PartialEq, Eq)]
pub enum SwitchPattern {
    /// A constant on an integer, bool or enum scrutinee.
    Const(Expression),
    /// A variant of a sum, with one binder per payload field.
    SumVariant { variant: u32, binders: Vec<Binder> },
}

/// One `case` arm.
#[derive(Debug, PartialEq, Eq)]
pub struct SwitchArm {
    pub patterns: Vec<SwitchPattern>,
    pub body: Vec<Statement>,
    pub pos: Position,
}

#[derive(Debug, PartialEq, Eq)]
pub enum StatementKind {
    Expression(Expression),
    Block(Vec<Statement>),
    Return(Option<Expression>),
    /// `complete` says that the arms alone cover the scrutinee.
    Switch {
        scrutinee: Expression,
        arms: Vec<SwitchArm>,
        default: Option<Vec<Statement>>,
        complete: bool,
    },
    If { condition: Expression, then_block: Vec<Statement>, else_block: Option<Vec<Statement>> },
    While { condition: Expression, body: Vec<Statement> },
    For {
        init: Option<Box<Statement>>,
        condition: Option<Expression>,
        increment: Option<Box<Statement>>,
        body: Vec<Statement>,
    },
    VarDecl { var_type: LangType, name: String, initializer: Option<Expression> },
    VarAssign { name: String, value: Expression },
    DerefAssign { target: Expression, value: Expression },
    FieldAssign { target: Expression, value: Expression },
    Break,
    Continue,
}

#[derive(Debug, PartialEq, Eq)]
pub struct Statement {
    pub kind: StatementKind,
    pub pos: Position,
}

pub enum ExprKindModel {
    Literal(LiteralValue),
    Variable(Seq<char>),
    Binary { left: Box<ExprModel>, op: BinaryOp, right: Box<ExprModel> },
    Comparison { left: Box<ExprModel>, op: ComparisonOp, right: Box<ExprModel> },
    Reference(Box<ExprModel>),
    Dereference(Box<ExprModel>),
    UnaryNot(Box<ExprModel>),
    BitwiseNot(Box<ExprModel>),
    FunctionCall { name: Seq<char>, args: Seq<ExprModel> },
    MethodCall { base: Box<ExprModel>, name: Seq<char>, args: Seq<ExprModel> },
    Cast { expr: Box<ExprModel>, target_type: LangType },
    Alloc { alloc_type: LangType, count: Box<ExprModel> },
    ListInitializer(Seq<ExprModel>),
    FieldAccess { base: Box<ExprModel>, field: Seq<char> },
    StructLiteral { struct_id: StructId, fields: Seq<(Seq<char>, ExprModel)> },
    EnumValue { enum_id: EnumId, value: i64 },
    SumConstruct { sum_id: SumId, variant: u32, args: Seq<ExprModel> },
    Is { scrutinee: Box<ExprModel>, sum_id: SumId, variant: u32 },
    IsBinding { scrutinee: Box<ExprModel>, sum_id: SumId, variant: u32, binders: Seq<BinderModel> },
    FunctionRef(Seq<char>),
    IndirectCall { callee: Box<ExprModel>, args: Seq<ExprModel> },
    SizeOf(LangType),
    Null,
    ValueBlock(Seq<StmtModel>),
}

pub struct ExprModel {
    pub kind: ExprKindModel,
    pub expr_type: LangType,
    pub pos: Position,
}

pub enum PatternModel {
    Const(ExprModel),
    SumVariant { variant: u32, binders: Seq<BinderModel> },
}

pub struct ArmModel {
    pub patterns: Seq<PatternModel>,
    pub body: Seq<StmtModel>,
    pub pos: Position,
}

pub enum StmtKindModel {
    Expression(ExprModel),
    Block(Seq<StmtModel>),
    Return(Option<ExprModel>),
    Switch {
        scrutinee: ExprModel,
        arms: Seq<ArmModel>,
        default: Option<Seq<StmtModel>>,
        complete: bool,
    },
    If { condition: ExprModel, then_block: Seq<StmtModel>, else_block: Option<Seq<StmtModel>> },
    While { condition: ExprModel, body: Seq<StmtModel> },
    For {
        init: Option<Box<StmtModel>>,
        condition: Option<ExprModel>,
        increment: Option<Box<StmtModel>>,
        body: Seq<StmtModel>,
    },
    VarDecl { var_type: LangType, name: Seq<char>, initializer: Option<ExprModel> },
    VarAssign { name: Seq<char>, value: ExprModel },
    DerefAssign { target: ExprModel, value: ExprModel },
    FieldAssign { target: ExprModel, value: ExprModel },
    Break,
    Continue,
}

pub struct StmtModel {
    pub kind: StmtKindModel,
    pub pos: Position,
}

pub open spec fn expr_model(e: Expression) -> ExprModel
    decreases e,
{
    ExprModel { kind: expr_kind_model(e.kind), expr_type: e.expr_type, pos: e.pos }
}

pub open spec fn expr_kind_model(k: ExprKind) -> ExprKindModel
    decreases k,
{
    match k {
        ExprKind::Literal(value) => ExprKindModel::Literal(value),
        ExprKind::Variable(name) => ExprKindModel::Variable(name@),
        ExprKind::Binary { left, op, right } => ExprKindModel::Binary {
            left: Box::new(expr_model(*left)),
            op,
            right: Box::new(expr_model(*right)),
        },
        ExprKind::Comparison { left, op, right } => ExprKindModel::Comparison {
            left: Box::new(expr_model(*left)),
            op,
            right: Box::new(expr_model(*right)),
        },
        ExprKind::Reference(inner) => ExprKindModel::Reference(Box::new(expr_model(*inner))),
        ExprKind::Dereference(inner) => ExprKindModel::Dereference(Box::new(expr_model(*inner))),
        ExprKind::UnaryNot(inner) => ExprKindModel::UnaryNot(Box::new(expr_model(*inner))),
        ExprKind::BitwiseNot(inner) => ExprKindModel::BitwiseNot(Box::new(expr_model(*inner))),
        ExprKind::FunctionCall { name, args } => ExprKindModel::FunctionCall {
            name: name@,
            args: exprs_model(args@),
        },
        ExprKind::MethodCall { base, name, args } => ExprKindModel::MethodCall {
            base: Box::new(expr_model(*base)),
            name: name@,
            args: exprs_model(args@),
        },
        ExprKind::Cast { expr, target_type } => ExprKindModel::Cast {
            expr: Box::new(expr_model(*expr)),
            target_type,
        },
        ExprKind::Alloc { alloc_type, count } => ExprKindModel::Alloc {
            alloc_type,
            count: Box::new(expr_model(*count)),
        },
        ExprKind::ListInitializer(elements) => ExprKindModel::ListInitializer(
            exprs_model(elements@),
        ),
        ExprKind::FieldAccess { base, field } => ExprKindModel::FieldAccess {
            base: Box::new(expr_model(*base)),
            field: field@,
        },
        ExprKind::StructLiteral { struct_id, fields } => ExprKindModel::StructLiteral {
            struct_id,
            fields: named_exprs_model(fields@),
        },
        ExprKind::EnumValue { enum_id, value } => ExprKindModel::EnumValue { enum_id, value },
        ExprKind::SumConstruct { sum_id, variant, args } => ExprKindModel::SumConstruct {
            sum_id,
            variant,
            args: exprs_model(args@),
        },
        ExprKind::Is { scrutinee, sum_id, variant } => ExprKindModel::Is {
            scrutinee: Box::new(expr_model(*scrutinee)),
            sum_id,
            variant,
        },
        ExprKind::IsBinding { scrutinee, sum_id, variant, binders } => ExprKindModel::IsBinding {
            scrutinee: Box::new(expr_model(*scrutinee)),
            sum_id,
            variant,
            binders: binders.deep_view(),
        },
        ExprKind::FunctionRef(name) => ExprKindModel::FunctionRef(name@),
        ExprKind::IndirectCall { callee, args } => ExprKindModel::IndirectCall {
            callee: Box::new(expr_model(*callee)),
            args: exprs_model(args@),
        },
        ExprKind::SizeOf(ty) => ExprKindModel::SizeOf(ty),
        ExprKind::Null => ExprKindModel::Null,
        ExprKind::ValueBlock(stmts) => ExprKindModel::ValueBlock(stmts_model(stmts@)),
    }
}

pub open spec fn exprs_model(s: Seq<Expression>) -> Seq<ExprModel>
    decreases s,
{
    Seq::new(
        s.len(),
        |i: int|
            if 0 <= i < s.len() {
                expr_model(s[i])
            } else {
                arbitrary()
            },
    )
}

pub open spec fn named_exprs_model(s: Seq<(String, Expression)>) -> Seq<(Seq<char>, ExprModel)>
    decreases s,
{
    Seq::new(
        s.len(),
        |i: int|
            if 0 <= i < s.len() {
                (s[i].0@, expr_model(s[i].1))
            } else {
                arbitrary()
            },
    )
}

pub open spec fn opt_expr_model(e: Option<Expression>) -> Option<ExprModel>
    decreases e,
{
    match e {
        Some(e) => Some(expr_model(e)),
        None => None,
    }
}

pub open spec fn pattern_model(p: SwitchPattern) -> PatternModel
    decreases p,
{
    match p {
        SwitchPattern::Const(e) => PatternModel::Const(expr_model(e)),
        SwitchPattern::SumVariant { variant, binders } => PatternModel::SumVariant {
            variant,
            binders: binders.deep_view(),
        },
    }
}

pub open spec fn patterns_model(s: Seq<SwitchPattern>) -> Seq<PatternModel>
    decreases s,
{
    Seq::new(
        s.len(),
        |i: int|
            if 0 <= i < s.len() {
                pattern_model(s[i])
            } else {
                arbitrary()
            },
    )
}

pub open spec fn arm_model(a: SwitchArm) -> ArmModel
    decreases a,
{
    ArmModel { patterns: patterns_model(a.patterns@), body: stmts_model(a.body@), pos: a.pos }
}

pub open spec fn arms_model(s: Seq<SwitchArm>) -> Seq<ArmModel>
    decreases s,
{
    Seq::new(
        s.len(),
        |i: int|
            if 0 <= i < s.len() {
                arm_model(s[i])
            } else {
                arbitrary()
            },
    )
}

pub open spec fn opt_stmts_model(s: Option<Vec<Statement>>) -> Option<Seq<StmtModel>>
    decreases s,
{
    match s {
        Some(stmts) => Some(stmts_model(stmts@)),
        None => None,
    }
}

pub open spec fn opt_stmt_model(s: Option<Box<Statement>>) -> Option<Box<StmtModel>>
    decreases s,
{
    match s {
        Some(stmt) => Some(Box::new(stmt_model(*stmt))),
        None => None,
    }
}

pub open spec fn stmt_kind_model(k: StatementKind) -> StmtKindModel
    decreases k,
{
    match k {
        StatementKind::Expression(e) => StmtKindModel::Expression(expr_model(e)),
        StatementKind::Block(stmts) => StmtKindModel::Block(stmts_model(stmts@)),
        StatementKind::Return(e) => StmtKindModel::Return(opt_expr_model(e)),
        StatementKind::Switch { scrutinee, arms, default, complete } => StmtKindModel::Switch {
            scrutinee: expr_model(scrutinee),
            arms: arms_model(arms@),
            default: opt_stmts_model(default),
            complete,
        },
        StatementKind::If { condition, then_block, else_block } => StmtKindModel::If {
            condition: expr_model(condition),
            then_block: stmts_model(then_block@),
            else_block: opt_stmts_model(else_block),
        },
        StatementKind::While { condition, body } => StmtKindModel::While {
            condition: expr_model(condition),
            body: stmts_model(body@),
        },
        StatementKind::For { init, condition, increment, body } => StmtKindModel::For {
            init: opt_stmt_model(init),
            condition: opt_expr_model(condition),
            increment: opt_stmt_model(increment),
            body: stmts_model(body@),
        },
        StatementKind::VarDecl { var_type, name, initializer } => StmtKindModel::VarDecl {
            var_type,
            name: name@,
            initializer: opt_expr_model(initializer),
        },
        StatementKind::VarAssign { name, value } => StmtKindModel::VarAssign {
            name: name@,
            value: expr_model(value),
        },
        StatementKind::DerefAssign { target, value } => StmtKindModel::DerefAssign {
            target: expr_model(target),
            value: expr_model(value),
        },
        StatementKind::FieldAssign { target, value } => StmtKindModel::FieldAssign {
            target: expr_model(target),
            value: expr_model(value),
        },
        StatementKind::Break => StmtKindModel::Break,
        StatementKind::Continue => StmtKindModel::Continue,
    }
}

pub open spec fn stmt_model(s: Statement) -> StmtModel
    decreases s,
{
    StmtModel { kind: stmt_kind_model(s.kind), pos: s.pos }
}

pub open spec fn stmts_model(s: Seq<Statement>) -> Seq<StmtModel>
    decreases s,
{
    Seq::new(
        s.len(),
        |i: int|
            if 0 <= i < s.len() {
                stmt_model(s[i])
            } else {
                arbitrary()
            },
    )
}

impl DeepView for Expression {
    type V = ExprModel;

    open spec fn deep_view(&self) -> ExprModel {
        expr_model(*self)
    }
}

impl DeepView for Statement {
    type V = StmtModel;

    open spec fn deep_view(&self) -> StmtModel {
        stmt_model(*self)
    }
}

impl DeepView for SwitchPattern {
    type V = PatternModel;

    open spec fn deep_view(&self) -> PatternModel {
        pattern_model(*self)
    }
}

impl DeepView for SwitchArm {
    type V = ArmModel;

    open spec fn deep_view(&self) -> ArmModel {
        arm_model(*self)
    }
}

pub broadcast proof fn lemma_exprs_push(s: Seq<Expression>, e: Expression)
    ensures
        #[trigger] exprs_model(s.push(e)) == exprs_model(s).push(expr_model(e)),
{
    assert(exprs_model(s.push(e)) =~= exprs_model(s).push(expr_model(e)));
}

pub broadcast proof fn lemma_exprs_update(s: Seq<Expression>, i: int, e: Expression)
    requires
        0 <= i < s.len(),
    ensures
        #[trigger] exprs_model(s.update(i, e)) == exprs_model(s).update(i, expr_model(e)),
{
    assert(exprs_model(s.update(i, e)) =~= exprs_model(s).update(i, expr_model(e)));
}

pub broadcast proof fn lemma_exprs_deep(v: Vec<Expression>)
    ensures
        #[trigger] v.deep_view() == exprs_model(v@),
{
    assert(v.deep_view() =~= exprs_model(v@));
}

pub broadcast proof fn lemma_named_exprs_push(s: Seq<(String, Expression)>, e: (String, Expression))
    ensures
        #[trigger] named_exprs_model(s.push(e)) == named_exprs_model(s).push(
            (e.0@, expr_model(e.1)),
        ),
{
    assert(named_exprs_model(s.push(e)) =~= named_exprs_model(s).push((e.0@, expr_model(e.1))));
}

pub broadcast proof fn lemma_stmts_push(s: Seq<Statement>, e: Statement)
    ensures
        #[trigger] stmts_model(s.push(e)) == stmts_model(s).push(stmt_model(e)),
{
    assert(stmts_model(s.push(e)) =~= stmts_model(s).push(stmt_model(e)));
}

pub broadcast proof fn lemma_stmts_update(s: Seq<Statement>, i: int, e: Statement)
    requires
        0 <= i < s.len(),
    ensures
        #[trigger] stmts_model(s.update(i, e)) == stmts_model(s).update(i, stmt_model(e)),
{
    assert(stmts_model(s.update(i, e)) =~= stmts_model(s).update(i, stmt_model(e)));
}

pub broadcast proof fn lemma_patterns_push(s: Seq<SwitchPattern>, e: SwitchPattern)
    ensures
        #[trigger] patterns_model(s.push(e)) == patterns_model(s).push(pattern_model(e)),
{
    assert(patterns_model(s.push(e)) =~= patterns_model(s).push(pattern_model(e)));
}

pub broadcast proof fn lemma_patterns_update(s: Seq<SwitchPattern>, i: int, e: SwitchPattern)
    requires
        0 <= i < s.len(),
    ensures
        #[trigger] patterns_model(s.update(i, e)) == patterns_model(s).update(i, pattern_model(e)),
{
    assert(patterns_model(s.update(i, e)) =~= patterns_model(s).update(i, pattern_model(e)));
}

pub broadcast proof fn lemma_arms_update(s: Seq<SwitchArm>, i: int, e: SwitchArm)
    requires
        0 <= i < s.len(),
    ensures
        #[trigger] arms_model(s.update(i, e)) == arms_model(s).update(i, arm_model(e)),
{
    assert(arms_model(s.update(i, e)) =~= arms_model(s).update(i, arm_model(e)));
}

pub broadcast proof fn lemma_arms_push(s: Seq<SwitchArm>, e: SwitchArm)
    ensures
        #[trigger] arms_model(s.push(e)) == arms_model(s).push(arm_model(e)),
{
    assert(arms_model(s.push(e)) =~= arms_model(s).push(arm_model(e)));
}

pub broadcast proof fn lemma_exprs_empty()
    ensures
        #[trigger] exprs_model(Seq::<Expression>::empty()) == Seq::<ExprModel>::empty(),
{
    assert(exprs_model(Seq::<Expression>::empty()) =~= Seq::<ExprModel>::empty());
}

pub broadcast proof fn lemma_stmts_empty()
    ensures
        #[trigger] stmts_model(Seq::<Statement>::empty()) == Seq::<StmtModel>::empty(),
{
    assert(stmts_model(Seq::<Statement>::empty()) =~= Seq::<StmtModel>::empty());
}

/// How the models of lists follow the lists.
pub broadcast group group_ast_models {
    lemma_exprs_push,
    lemma_exprs_update,
    lemma_named_exprs_push,
    lemma_stmts_push,
    lemma_stmts_update,
    lemma_patterns_push,
    lemma_patterns_update,
    lemma_arms_update,
    lemma_arms_push,
    lemma_exprs_empty,
    lemma_stmts_empty,
}

impl ExprModel {
    /// A placeholder of type `u0`.
    pub open spec fn null(pos: Position) -> ExprModel {
        ExprModel { kind: ExprKindModel::Null, expr_type: LangType::void(), pos }
    }
}

impl Expression {
    pub fn new(kind: ExprKind, expr_type: LangType, pos: Position) -> (r: Expression)
        ensures
            r == (Expression { kind, expr_type, pos }),
            r.deep_view() == (ExprModel { kind: expr_kind_model(kind), expr_type, pos }),
    {
        Expression { kind, expr_type, pos }
    }
}

impl Statement {
    pub fn new(kind: StatementKind, pos: Position) -> (r: Statement)
        ensures
            r == (Statement { kind, pos }),
            r.deep_view() == (StmtModel { kind: stmt_kind_model(kind), pos }),
    {
        Statement { kind, pos }
    }
}

/// `@name` before a declaration.
#[derive(Debug, Clone, PartialEq, Eq)]
pub struct Attribute<S = String> {
    pub name: S,
    pub pos: Position,
}

impl DeepView for Attribute<String> {
    type V = Attribute<Seq<char>>;

    open spec fn deep_view(&self) -> Attribute<Seq<char>> {
        Attribute { name: self.name@, pos: self.pos }
    }
}

/// What a function that runs during compilation is for.
#[derive(Debug, Clone, Copy, PartialEq, Eq, Structural)]
pub enum MetaKind {
    Rule,
    Transform,
}

/// A function's name, parameters, result and reach.
#[derive(Debug, Clone, PartialEq, Eq)]
pub struct FunctionProto {
    pub name: String,
    pub params: Vec<(LangType, String)>,
    pub return_type: LangType,
    /// Whether another module may name the function.
    pub vis: Visibility,
    /// Whether the symbol leaves the object file.
    pub export: bool,
    pub attrs: Vec<Attribute>,
    /// Set on a function that runs during compilation.
    pub meta_kind: Option<MetaKind>,
    pub pos: Position,
}

#[verifier::ext_equal]
pub struct ProtoModel {
    pub name: Seq<char>,
    pub params: Seq<(LangType, Seq<char>)>,
    pub return_type: LangType,
    pub vis: Visibility,
    pub export: bool,
    pub attrs: Seq<Attribute<Seq<char>>>,
    pub meta_kind: Option<MetaKind>,
    pub pos: Position,
}

impl DeepView for FunctionProto {
    type V = ProtoModel;

    open spec fn deep_view(&self) -> ProtoModel {
        ProtoModel {
            name: self.name@,
            params: self.params.deep_view(),
            return_type: self.return_type,
            vis: self.vis,
            export: self.export,
            attrs: self.attrs.deep_view(),
            meta_kind: self.meta_kind,
            pos: self.pos,
        }
    }
}

/// A register as written.
#[derive(Debug, Clone, PartialEq, Eq)]
pub struct AsmReg<S = String> {
    pub name: S,
    pub pos: Position,
}

impl DeepView for AsmReg<String> {
    type V = AsmReg<Seq<char>>;

    open spec fn deep_view(&self) -> AsmReg<Seq<char>> {
        AsmReg { name: self.name@, pos: self.pos }
    }
}

/// The body of an `asm fn` and its register contract: one register for each
/// parameter, one for a result that is not `u0`, what is clobbered, and at
/// least one line.
#[derive(Debug, Clone, PartialEq, Eq)]
pub struct AsmSpec {
    pub param_regs: Vec<AsmReg>,
    pub return_reg: Option<AsmReg>,
    pub clobbers: Vec<AsmReg>,
    pub lines: Vec<String>,
    pub pos: Position,
}

#[verifier::ext_equal]
pub struct AsmModel {
    pub param_regs: Seq<AsmReg<Seq<char>>>,
    pub return_reg: Option<AsmReg<Seq<char>>>,
    pub clobbers: Seq<AsmReg<Seq<char>>>,
    pub lines: Seq<Seq<char>>,
    pub pos: Position,
}

impl DeepView for AsmSpec {
    type V = AsmModel;

    open spec fn deep_view(&self) -> AsmModel {
        AsmModel {
            param_regs: self.param_regs.deep_view(),
            return_reg: self.return_reg.deep_view(),
            clobbers: self.clobbers.deep_view(),
            lines: self.lines.deep_view(),
            pos: self.pos,
        }
    }
}

/// The body of a `naked fn`: lines only, registers follow the platform's
/// calling convention.
#[derive(Debug, Clone, PartialEq, Eq)]
pub struct NakedSpec {
    pub lines: Vec<String>,
    pub pos: Position,
}

#[verifier::ext_equal]
pub struct NakedModel {
    pub lines: Seq<Seq<char>>,
    pub pos: Position,
}

impl DeepView for NakedSpec {
    type V = NakedModel;

    open spec fn deep_view(&self) -> NakedModel {
        NakedModel { lines: self.lines.deep_view(), pos: self.pos }
    }
}

/// Where a function's body comes from.
#[derive(Debug, PartialEq, Eq)]
pub enum FunctionBody {
    Aspect(Vec<Statement>),
    Extern,
    Asm(AsmSpec),
    Naked(NakedSpec),
}

#[verifier::ext_equal]
pub enum BodyModel {
    Aspect(Seq<StmtModel>),
    Extern,
    Asm(AsmModel),
    Naked(NakedModel),
}

impl DeepView for FunctionBody {
    type V = BodyModel;

    open spec fn deep_view(&self) -> BodyModel {
        match *self {
            FunctionBody::Aspect(stmts) => BodyModel::Aspect(stmts_model(stmts@)),
            FunctionBody::Extern => BodyModel::Extern,
            FunctionBody::Asm(spec) => BodyModel::Asm(spec.deep_view()),
            FunctionBody::Naked(spec) => BodyModel::Naked(spec.deep_view()),
        }
    }
}

#[derive(Debug, PartialEq, Eq)]
pub struct Function {
    pub proto: FunctionProto,
    pub body: FunctionBody,
}

#[verifier::ext_equal]
pub struct FnModel {
    pub proto: ProtoModel,
    pub body: BodyModel,
}

impl DeepView for Function {
    type V = FnModel;

    open spec fn deep_view(&self) -> FnModel {
        FnModel { proto: self.proto.deep_view(), body: self.body.deep_view() }
    }
}

#[derive(Debug, PartialEq, Eq)]
pub struct GlobalVar {
    pub var_type: LangType,
    pub name: String,
    pub initializer: Option<Expression>,
    pub vis: Visibility,
    pub export: bool,
    pub attrs: Vec<Attribute>,
    /// State of the compilation, not of the program.
    pub is_meta: bool,
    pub pos: Position,
}

#[verifier::ext_equal]
pub struct GlobalModel {
    pub var_type: LangType,
    pub name: Seq<char>,
    pub initializer: Option<ExprModel>,
    pub vis: Visibility,
    pub export: bool,
    pub attrs: Seq<Attribute<Seq<char>>>,
    pub is_meta: bool,
    pub pos: Position,
}

impl DeepView for GlobalVar {
    type V = GlobalModel;

    open spec fn deep_view(&self) -> GlobalModel {
        GlobalModel {
            var_type: self.var_type,
            name: self.name@,
            initializer: opt_expr_model(self.initializer),
            vis: self.vis,
            export: self.export,
            attrs: self.attrs.deep_view(),
            is_meta: self.is_meta,
            pos: self.pos,
        }
    }
}

/// What a rule is about.
#[derive(Debug, Clone, PartialEq, Eq)]
pub enum RuleAnchor<S = String> {
    Type(S),
    Attribute(S),
}

/// `rule <anchor> <checker>`.
#[derive(Debug, Clone, PartialEq, Eq)]
pub struct RuleDecl<S = String> {
    pub anchor: RuleAnchor<S>,
    pub checker_fn: S,
    pub vis: Visibility,
    pub pos: Position,
}

/// What a transform is consulted for.
#[derive(Debug, Clone, PartialEq, Eq)]
pub enum TransformKey<S = String> {
    Coerce { from: LangType, to: LangType },
    Attribute(S),
}

/// `transform <key> <handler>`.
#[derive(Debug, Clone, PartialEq, Eq)]
pub struct TransformDecl<S = String> {
    pub key: TransformKey<S>,
    pub handler_fn: S,
    pub vis: Visibility,
    pub pos: Position,
}

impl DeepView for RuleAnchor<String> {
    type V = RuleAnchor<Seq<char>>;

    open spec fn deep_view(&self) -> RuleAnchor<Seq<char>> {
        match *self {
            RuleAnchor::Type(name) => RuleAnchor::Type(name@),
            RuleAnchor::Attribute(name) => RuleAnchor::Attribute(name@),
        }
    }
}

impl DeepView for RuleDecl<String> {
    type V = RuleDecl<Seq<char>>;

    open spec fn deep_view(&self) -> RuleDecl<Seq<char>> {
        RuleDecl {
            anchor: self.anchor.deep_view(),
            checker_fn: self.checker_fn@,
            vis: self.vis,
            pos: self.pos,
        }
    }
}

impl DeepView for TransformKey<String> {
    type V = TransformKey<Seq<char>>;

    open spec fn deep_view(&self) -> TransformKey<Seq<char>> {
        match *self {
            TransformKey::Coerce { from, to } => TransformKey::Coerce { from, to },
            TransformKey::Attribute(name) => TransformKey::Attribute(name@),
        }
    }
}

impl DeepView for TransformDecl<String> {
    type V = TransformDecl<Seq<char>>;

    open spec fn deep_view(&self) -> TransformDecl<Seq<char>> {
        TransformDecl {
            key: self.key.deep_view(),
            handler_fn: self.handler_fn@,
            vis: self.vis,
            pos: self.pos,
        }
    }
}

/// A parsed program with the table of its symbols.
#[derive(Debug)]
pub struct Program {
    pub functions: Vec<Function>,
    pub global_vars: Vec<GlobalVar>,
    pub string_literals: Vec<String>,
    pub rules: Vec<RuleDecl>,
    pub transforms: Vec<TransformDecl>,
    pub symbols: ModuleSymbols,
    /// Source files, indexed by `Position::file_id`.
    pub source_files: Vec<String>,
    /// The module of each source file.
    pub file_modules: Vec<String>,
}

#[verifier::ext_equal]
pub struct ProgramModel {
    pub functions: Seq<FnModel>,
    pub global_vars: Seq<GlobalModel>,
    pub string_literals: Seq<Seq<char>>,
    pub rules: Seq<RuleDecl<Seq<char>>>,
    pub transforms: Seq<TransformDecl<Seq<char>>>,
    pub symbols: SymbolsModel,
    pub source_files: Seq<Seq<char>>,
    pub file_modules: Seq<Seq<char>>,
}

impl DeepView for Program {
    type V = ProgramModel;

    open spec fn deep_view(&self) -> ProgramModel {
        ProgramModel {
            functions: self.functions.deep_view(),
            global_vars: self.global_vars.deep_view(),
            string_literals: self.string_literals.deep_view(),
            rules: self.rules.deep_view(),
            transforms: self.transforms.deep_view(),
            symbols: self.symbols.deep_view(),
            source_files: self.source_files.deep_view(),
            file_modules: self.file_modules.deep_view(),
        }
    }
}

} // verus!

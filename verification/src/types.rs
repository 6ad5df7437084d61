//! The data model: identifiers, scalar values and types, filter
//! expressions, and the error taxonomy, together with their spec-level
//! views.

use vstd::prelude::*;

use crate::map::{MapValue, NameMap};

verus! {

// ---------------------------------------------------------------------
// Identifiers
// ---------------------------------------------------------------------

/// Name of a table; compared by its text.
#[derive(Debug)]
pub struct TableName(pub String);

/// Name of a column; compared by its text.
#[derive(Debug)]
pub struct ColumnName(pub String);

/// Tag of one variant of a tagged-union table; compared by its text.
#[derive(Debug)]
pub struct Constructor(pub String);

impl View for TableName {
    type V = Seq<char>;

    open spec fn view(&self) -> Seq<char> {
        self.0@
    }
}

impl View for ColumnName {
    type V = Seq<char>;

    open spec fn view(&self) -> Seq<char> {
        self.0@
    }
}

impl View for Constructor {
    type V = Seq<char>;

    open spec fn view(&self) -> Seq<char> {
        self.0@
    }
}

impl TableName {
    /// A copy that names the same table.
    pub fn dup(&self) -> (r: TableName)
        ensures
            r@ == self@,
    {
        TableName(self.0.clone())
    }
}

impl ColumnName {
    /// A copy that names the same column.
    pub fn dup(&self) -> (r: ColumnName)
        ensures
            r@ == self@,
    {
        ColumnName(self.0.clone())
    }
}

impl Constructor {
    /// A copy that names the same variant.
    pub fn dup(&self) -> (r: Constructor)
        ensures
            r@ == self@,
    {
        Constructor(self.0.clone())
    }
}

impl PartialEq for TableName {
    fn eq(&self, other: &Self) -> (r: bool) {
        self.0 == other.0
    }
}

impl vstd::std_specs::cmp::PartialEqSpecImpl for TableName {
    open spec fn obeys_eq_spec() -> bool {
        true
    }

    open spec fn eq_spec(&self, other: &Self) -> bool {
        self@ == other@
    }
}

impl PartialEq for ColumnName {
    fn eq(&self, other: &Self) -> (r: bool) {
        self.0 == other.0
    }
}

impl vstd::std_specs::cmp::PartialEqSpecImpl for ColumnName {
    open spec fn obeys_eq_spec() -> bool {
        true
    }

    open spec fn eq_spec(&self, other: &Self) -> bool {
        self@ == other@
    }
}

impl PartialEq for Constructor {
    fn eq(&self, other: &Self) -> (r: bool) {
        self.0 == other.0
    }
}

impl vstd::std_specs::cmp::PartialEqSpecImpl for Constructor {
    open spec fn obeys_eq_spec() -> bool {
        true
    }

    open spec fn eq_spec(&self, other: &Self) -> bool {
        self@ == other@
    }
}

// ---------------------------------------------------------------------
// Scalar values and types
// ---------------------------------------------------------------------

/// The scalar kinds a column can be declared with.
#[derive(Clone, Copy, Debug, PartialEq, Eq, Structural)]
pub enum ScalarType {
    String,
    Bool,
    Int,
}

impl View for ScalarType {
    type V = ScalarType;

    open spec fn view(&self) -> ScalarType {
        *self
    }
}

/// A runtime scalar value; `Null` exists only to satisfy optional types.
#[derive(Debug)]
pub enum ScalarValue {
    Null,
    String(String),
    Bool(bool),
    Int(i32),
}

/// Spec-level model of a `ScalarValue`: the string payload is a character
/// sequence.
pub enum ScalarValueV {
    Null,
    String(Seq<char>),
    Bool(bool),
    Int(i32),
}

impl View for ScalarValue {
    type V = ScalarValueV;

    open spec fn view(&self) -> ScalarValueV {
        match self {
            ScalarValue::Null => ScalarValueV::Null,
            ScalarValue::String(s) => ScalarValueV::String(s@),
            ScalarValue::Bool(b) => ScalarValueV::Bool(*b),
            ScalarValue::Int(i) => ScalarValueV::Int(*i),
        }
    }
}

impl ScalarValue {
    /// A copy denoting the same value.
    pub fn dup(&self) -> (r: ScalarValue)
        ensures
            r@ == self@,
    {
        match self {
            ScalarValue::Null => ScalarValue::Null,
            ScalarValue::String(s) => ScalarValue::String(s.clone()),
            ScalarValue::Bool(b) => ScalarValue::Bool(*b),
            ScalarValue::Int(i) => ScalarValue::Int(*i),
        }
    }
}

impl PartialEq for ScalarValue {
    fn eq(&self, other: &Self) -> (r: bool) {
        match (self, other) {
            (ScalarValue::Null, ScalarValue::Null) => true,
            (ScalarValue::String(a), ScalarValue::String(b)) => *a == *b,
            (ScalarValue::Bool(a), ScalarValue::Bool(b)) => a == b,
            (ScalarValue::Int(a), ScalarValue::Int(b)) => a == b,
            _ => false,
        }
    }
}

impl vstd::std_specs::cmp::PartialEqSpecImpl for ScalarValue {
    open spec fn obeys_eq_spec() -> bool {
        true
    }

    open spec fn eq_spec(&self, other: &Self) -> bool {
        self@ == other@
    }
}

/// The type of a column as seen by a query: either a mandatory scalar or an
/// optional one (a row may lack the column, reading as null).
#[derive(Debug, PartialEq)]
pub enum Type {
    Optional(Box<Type>),
    ScalarType(ScalarType),
}

impl Type {
    /// A copy denoting the same type.
    pub fn dup(&self) -> (r: Type)
        ensures
            r == *self,
        decreases *self,
    {
        match self {
            Type::Optional(inner) => Type::Optional(Box::new(inner.dup())),
            Type::ScalarType(st) => Type::ScalarType(*st),
        }
    }
}

// ---------------------------------------------------------------------
// Filter expressions
// ---------------------------------------------------------------------

/// The binary connectives of a filter expression.
#[derive(Clone, Copy, Debug, PartialEq, Eq, Structural)]
pub enum Function {
    And,
}

/// An equality test of one column against a literal value.
#[derive(Debug, PartialEq)]
pub struct Comparison {
    pub column: ColumnName,
    pub value: ScalarValue,
}

/// A boolean filter expression evaluated against one row.
#[derive(Debug, PartialEq)]
pub enum Expression {
    Comparison(Comparison),
    Bool(bool),
    BinaryFunction { function: Function, expr_left: Box<Expression>, expr_right: Box<Expression> },
}

/// Spec-level model of an `Expression`.
pub enum ExprV {
    Comparison(Seq<char>, ScalarValueV),
    Bool(bool),
    BinaryFunction(Function, Box<ExprV>, Box<ExprV>),
}

/// The model of an expression tree.
pub open spec fn expr_view(e: Expression) -> ExprV
    decreases e,
{
    match e {
        Expression::Comparison(c) => ExprV::Comparison(c.column@, c.value@),
        Expression::Bool(b) => ExprV::Bool(b),
        Expression::BinaryFunction { function, expr_left, expr_right } => ExprV::BinaryFunction(
            function,
            Box::new(expr_view(*expr_left)),
            Box::new(expr_view(*expr_right)),
        ),
    }
}

impl View for Expression {
    type V = ExprV;

    open spec fn view(&self) -> ExprV {
        expr_view(*self)
    }
}

/// An expression testing `column` for equality against `value`.
pub fn equals(column: ColumnName, value: ScalarValue) -> (r: Expression)
    ensures
        r@ == ExprV::Comparison(column@, value@),
{
    Expression::Comparison(Comparison { column, value })
}

/// The conjunction of two expressions.
pub fn and(left: Expression, right: Expression) -> (r: Expression)
    ensures
        r@ == ExprV::BinaryFunction(Function::And, Box::new(left@), Box::new(right@)),
{
    Expression::BinaryFunction {
        function: Function::And,
        expr_left: Box::new(left),
        expr_right: Box::new(right),
    }
}

/// A literal boolean expression.
pub fn bool_expr(b: bool) -> (r: Expression)
    ensures
        r@ == ExprV::Bool(b),
{
    Expression::Bool(b)
}

// ---------------------------------------------------------------------
// Schemas
// ---------------------------------------------------------------------

/// The body of a table: one fixed set of typed columns, or a tagged union
/// of named variants, each with its own column set.
#[derive(Debug, PartialEq)]
pub enum Columns {
    SingleConstructor(NameMap<ColumnName, ScalarType>),
    MultipleConstructors(NameMap<Constructor, NameMap<ColumnName, ScalarType>>),
}

/// Spec-level model of a variant's (or single-constructor table's) columns.
pub type ColumnTypesV = Seq<(Seq<char>, ScalarType)>;

/// Spec-level model of `Columns`.
pub enum ColumnsV {
    SingleConstructor(ColumnTypesV),
    MultipleConstructors(Seq<(Seq<char>, ColumnTypesV)>),
}

impl View for Columns {
    type V = ColumnsV;

    open spec fn view(&self) -> ColumnsV {
        match self {
            Columns::SingleConstructor(m) => ColumnsV::SingleConstructor(m@),
            Columns::MultipleConstructors(m) => ColumnsV::MultipleConstructors(m@),
        }
    }
}

impl Columns {
    /// A copy describing the same columns.
    pub fn dup(&self) -> (r: Columns)
        ensures
            r@ == self@,
    {
        match self {
            Columns::SingleConstructor(m) => Columns::SingleConstructor(m.dup()),
            Columns::MultipleConstructors(m) => Columns::MultipleConstructors(m.dup()),
        }
    }
}

/// A named table together with its column schema.
#[derive(Debug, PartialEq)]
pub struct Table {
    pub name: TableName,
    pub columns: Columns,
}

/// Spec-level model of a `Table`.
pub struct TableV {
    pub name: Seq<char>,
    pub columns: ColumnsV,
}

impl View for Table {
    type V = TableV;

    open spec fn view(&self) -> TableV {
        TableV { name: self.name@, columns: self.columns@ }
    }
}

impl Table {
    /// A copy describing the same table.
    pub fn dup(&self) -> (r: Table)
        ensures
            r@ == self@,
    {
        Table { name: self.name.dup(), columns: self.columns.dup() }
    }
}

impl MapValue for Table {
    fn val_dup(&self) -> (r: Self) {
        self.dup()
    }
}

// ---------------------------------------------------------------------
// Rows, queries and inserts
// ---------------------------------------------------------------------

/// One stored or projected row: column names bound to scalar values.
pub type Row = NameMap<ColumnName, ScalarValue>;

/// Spec-level model of a row.
pub type RowV = Seq<(Seq<char>, ScalarValueV)>;

/// The model of a list of column names.
pub open spec fn names_view(names: Seq<ColumnName>) -> Seq<Seq<char>> {
    Seq::new(names.len(), |i: int| names[i]@)
}

/// What a SELECT projects: either named columns from whichever variant
/// matched, or a constructor restriction together with its columns.
#[derive(Debug, PartialEq)]
pub enum SelectColumns {
    SelectConstructor { constructor: Constructor, columns: Vec<ColumnName> },
    SelectColumns { columns: Vec<ColumnName> },
}

/// Spec-level model of `SelectColumns`.
pub enum SelectColumnsV {
    SelectConstructor(Seq<char>, Seq<Seq<char>>),
    SelectColumns(Seq<Seq<char>>),
}

impl View for SelectColumns {
    type V = SelectColumnsV;

    open spec fn view(&self) -> SelectColumnsV {
        match self {
            SelectColumns::SelectConstructor { constructor, columns } => {
                SelectColumnsV::SelectConstructor(constructor@, names_view(columns@))
            },
            SelectColumns::SelectColumns { columns } => {
                SelectColumnsV::SelectColumns(names_view(columns@))
            },
        }
    }
}

/// A query: which table, which columns, and the row filter.
#[derive(Debug, PartialEq)]
pub struct Select {
    pub table: TableName,
    pub columns: SelectColumns,
    pub filter: Expression,
}

/// Spec-level model of a `Select`.
pub struct SelectV {
    pub table: Seq<char>,
    pub columns: SelectColumnsV,
    pub filter: ExprV,
}

impl View for Select {
    type V = SelectV;

    open spec fn view(&self) -> SelectV {
        SelectV { table: self.table@, columns: self.columns@, filter: self.filter@ }
    }
}

/// The values of one row to insert, tagged with a constructor when the
/// table is a tagged union.
#[derive(Debug, PartialEq)]
pub enum InsertValue {
    Single { values: Row },
    Multiple { constructor: Constructor, values: Row },
}

/// Spec-level model of an `InsertValue`.
pub enum InsertValueV {
    Single(RowV),
    Multiple(Seq<char>, RowV),
}

impl View for InsertValue {
    type V = InsertValueV;

    open spec fn view(&self) -> InsertValueV {
        match self {
            InsertValue::Single { values } => InsertValueV::Single(values@),
            InsertValue::Multiple { constructor, values } => InsertValueV::Multiple(
                constructor@,
                values@,
            ),
        }
    }
}

/// One row to insert under an integer key.
#[derive(Debug, PartialEq)]
pub struct Insert {
    pub table: TableName,
    pub key: i32,
    pub value: InsertValue,
}

/// Spec-level model of an `Insert`.
pub struct InsertV {
    pub table: Seq<char>,
    pub key: i32,
    pub value: InsertValueV,
}

impl View for Insert {
    type V = InsertV;

    open spec fn view(&self) -> InsertV {
        InsertV { table: self.table@, key: self.key, value: self.value@ }
    }
}

// ---------------------------------------------------------------------
// Errors
// ---------------------------------------------------------------------

/// A schema or query mismatch found by the type-checker.
#[derive(Debug, PartialEq)]
pub enum TypeError {
    TableNotFound(TableName),
    ColumnNotFound { table_name: TableName, column_name: ColumnName },
    ColumnMismatch {
        table_name: TableName,
        column_name: ColumnName,
        left: ScalarType,
        right: ScalarType,
    },
    MissingColumnInInput { table_name: TableName, column_name: ColumnName },
    TypeMismatchInInput { expected_type: Type, input_value: ScalarValue },
    UnknownScalarTypeForValue { value: ScalarValue },
    ConstructorNotFound { table_name: TableName, constructor: Constructor },
    ConstructorNotSpecified { table: TableName },
    ConstructorSpecifiedButNotRequired { table: TableName },
}

/// Spec-level model of a `TypeError`.
pub enum TypeErrorV {
    TableNotFound(Seq<char>),
    ColumnNotFound { table_name: Seq<char>, column_name: Seq<char> },
    ColumnMismatch {
        table_name: Seq<char>,
        column_name: Seq<char>,
        left: ScalarType,
        right: ScalarType,
    },
    MissingColumnInInput { table_name: Seq<char>, column_name: Seq<char> },
    TypeMismatchInInput { expected_type: Type, input_value: ScalarValueV },
    UnknownScalarTypeForValue { value: ScalarValueV },
    ConstructorNotFound { table_name: Seq<char>, constructor: Seq<char> },
    ConstructorNotSpecified { table: Seq<char> },
    ConstructorSpecifiedButNotRequired { table: Seq<char> },
}

impl View for TypeError {
    type V = TypeErrorV;

    open spec fn view(&self) -> TypeErrorV {
        match self {
            TypeError::TableNotFound(t) => TypeErrorV::TableNotFound(t@),
            TypeError::ColumnNotFound { table_name, column_name } => TypeErrorV::ColumnNotFound {
                table_name: table_name@,
                column_name: column_name@,
            },
            TypeError::ColumnMismatch { table_name, column_name, left, right } => {
                TypeErrorV::ColumnMismatch {
                    table_name: table_name@,
                    column_name: column_name@,
                    left: *left,
                    right: *right,
                }
            },
            TypeError::MissingColumnInInput { table_name, column_name } => {
                TypeErrorV::MissingColumnInInput {
                    table_name: table_name@,
                    column_name: column_name@,
                }
            },
            TypeError::TypeMismatchInInput { expected_type, input_value } => {
                TypeErrorV::TypeMismatchInInput {
                    expected_type: *expected_type,
                    input_value: input_value@,
                }
            },
            TypeError::UnknownScalarTypeForValue { value } => {
                TypeErrorV::UnknownScalarTypeForValue { value: value@ }
            },
            TypeError::ConstructorNotFound { table_name, constructor } => {
                TypeErrorV::ConstructorNotFound {
                    table_name: table_name@,
                    constructor: constructor@,
                }
            },
            TypeError::ConstructorNotSpecified { table } => TypeErrorV::ConstructorNotSpecified {
                table: table@,
            },
            TypeError::ConstructorSpecifiedButNotRequired { table } => {
                TypeErrorV::ConstructorSpecifiedButNotRequired { table: table@ }
            },
        }
    }
}

/// What a SELECT can fail with.
#[derive(Debug, PartialEq)]
pub enum SelectError {
    TypeError(TypeError),
    TableNotFound(TableName),
}

/// Spec-level model of a `SelectError`.
pub enum SelectErrorV {
    TypeError(TypeErrorV),
    TableNotFound(Seq<char>),
}

impl View for SelectError {
    type V = SelectErrorV;

    open spec fn view(&self) -> SelectErrorV {
        match self {
            SelectError::TypeError(e) => SelectErrorV::TypeError(e@),
            SelectError::TableNotFound(t) => SelectErrorV::TableNotFound(t@),
        }
    }
}

/// What an INSERT can fail with.
#[derive(Debug, PartialEq)]
pub enum InsertError {
    TypeError(TypeError),
    TableNotFound(TableName),
}

/// Spec-level model of an `InsertError`.
pub enum InsertErrorV {
    TypeError(TypeErrorV),
    TableNotFound(Seq<char>),
}

impl View for InsertError {
    type V = InsertErrorV;

    open spec fn view(&self) -> InsertErrorV {
        match self {
            InsertError::TypeError(e) => InsertErrorV::TypeError(e@),
            InsertError::TableNotFound(t) => InsertErrorV::TableNotFound(t@),
        }
    }
}

} // verus!

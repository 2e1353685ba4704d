//! Predicates and their arguments: how a function argument becomes a value
//! of a constraint, and how a numeric comparison becomes a constraint.

use vstd::prelude::*;
use crate::clauses::{
    ClausesState, ConjoiningClauses, extends, grows, types_wf, with_empty, with_narrowed,
    with_where,
};
use crate::query::{FnArg, NonIntegerConstant, Predicate, Variable};
use crate::symbols::PlainSymbol;
use crate::types::{
    ColumnConstraint, NumericComparison, QueryValue, ReasonView, EmptyBecause, datalog_operator,
};
use crate::values::{TypedValue, ValueType};

verus! {

/// The kind of argument that a function asks for.
#[derive(Clone, Copy, Debug, PartialEq, Eq, Structural)]
pub enum ArgumentKind {
    Numeric,
    Instant,
}

impl ArgumentKind {
    /// The name of the kind.
    pub fn name(self) -> (r: &'static str)
        ensures
            r@ == (match self {
                ArgumentKind::Numeric => "numeric"@,
                ArgumentKind::Instant => "instant"@,
            }),
    {
        match self {
            ArgumentKind::Numeric => "numeric",
            ArgumentKind::Instant => "instant",
        }
    }
}

/// Why a query cannot be algebrized.
#[derive(Debug, PartialEq, Eq)]
pub enum AlgebrizerError {
    /// A variable is used where it must be bound, and is not.
    UnboundVariable(PlainSymbol),
    /// The function, the kind of argument it asks for, and the position of
    /// the argument that is of another kind.
    InvalidArgument(PlainSymbol, ArgumentKind, usize),
    UnknownFunction(PlainSymbol),
    /// The function, the number of arguments given, and the number asked for.
    InvalidNumberOfArguments(PlainSymbol, usize, usize),
    /// The value given for a limit variable is no natural number.
    InvalidLimit(TypedValue),
}

/// The first column of `var` as a value, or the error for an unbound
/// variable.
pub open spec fn column_value(cc: ConjoiningClauses, var: Variable) -> Result<QueryValue, AlgebrizerError> {
    match cc.column_of(var@) {
        Some(col) => Ok(QueryValue::Column(col)),
        None => Err(AlgebrizerError::UnboundVariable(var.0)),
    }
}

/// The value that a numeric argument resolves to.
pub open spec fn numeric_value(cc: ConjoiningClauses, function: PlainSymbol, position: usize, arg: FnArg) -> Result<QueryValue, AlgebrizerError> {
    match arg {
        FnArg::Variable(var) => column_value(cc, var),
        FnArg::EntidOrInteger(i) => Ok(QueryValue::TypedValue(TypedValue::Long(i))),
        FnArg::Constant(NonIntegerConstant::Float(f)) => Ok(QueryValue::TypedValue(TypedValue::Double(f))),
        _ => Err(AlgebrizerError::InvalidArgument(function, ArgumentKind::Numeric, position)),
    }
}

/// The state once a numeric argument is resolved: a variable is known to be
/// a number, and an argument that cannot be a number makes the clauses empty.
pub open spec fn numeric_state(st: ClausesState, arg: FnArg) -> ClausesState {
    match arg {
        FnArg::Variable(var) => with_narrowed(st, var, set![ValueType::Double, ValueType::Long]),
        FnArg::EntidOrInteger(_) => st,
        FnArg::Constant(NonIntegerConstant::Float(_)) => st,
        _ => with_empty(st, ReasonView::NonNumericArgument),
    }
}

/// The value that an instant argument resolves to.
pub open spec fn instant_value(cc: ConjoiningClauses, function: PlainSymbol, position: usize, arg: FnArg) -> Result<QueryValue, AlgebrizerError> {
    match arg {
        FnArg::Variable(var) => column_value(cc, var),
        FnArg::Constant(NonIntegerConstant::Instant(v)) => Ok(QueryValue::TypedValue(TypedValue::Instant(v))),
        _ => Err(AlgebrizerError::InvalidArgument(function, ArgumentKind::Instant, position)),
    }
}

/// The state once an instant argument is resolved.
pub open spec fn instant_state(st: ClausesState, arg: FnArg) -> ClausesState {
    match arg {
        FnArg::Variable(var) => with_narrowed(st, var, set![ValueType::Instant]),
        FnArg::Constant(NonIntegerConstant::Instant(_)) => st,
        _ => with_empty(st, ReasonView::NonInstantArgument),
    }
}

/// The value that an argument of any kind resolves to.
pub open spec fn argument_value(cc: ConjoiningClauses, arg: FnArg) -> Result<QueryValue, AlgebrizerError> {
    match arg {
        FnArg::Variable(var) => column_value(cc, var),
        FnArg::EntidOrInteger(i) => Ok(QueryValue::PrimitiveLong(i)),
        FnArg::IdentOrKeyword(kw) => Ok(QueryValue::TypedValue(TypedValue::Keyword(kw))),
        FnArg::Constant(NonIntegerConstant::Boolean(val)) => Ok(QueryValue::TypedValue(TypedValue::Boolean(val))),
        FnArg::Constant(NonIntegerConstant::Float(f)) => Ok(QueryValue::TypedValue(TypedValue::Double(f))),
        FnArg::Constant(NonIntegerConstant::Text(s)) => Ok(QueryValue::TypedValue(TypedValue::String(s))),
        FnArg::Constant(NonIntegerConstant::Uuid(u)) => Ok(QueryValue::TypedValue(TypedValue::Uuid(u))),
        FnArg::Constant(NonIntegerConstant::Instant(u)) => Ok(QueryValue::TypedValue(TypedValue::Instant(u))),
        FnArg::SrcVar(_) => Ok(QueryValue::PrimitiveLong(0)),
        FnArg::Vector(_) => Ok(QueryValue::PrimitiveLong(0)),
    }
}

impl ConjoiningClauses {
    fn first_column_value(&self, var: Variable) -> (r: Result<QueryValue, AlgebrizerError>)
        ensures
            r == column_value(*self, var),
    {
        match self.first_column(&var) {
            Some(col) => Ok(QueryValue::Column(col.clone())),
            None => Err(AlgebrizerError::UnboundVariable(var.0)),
        }
    }

    /// Turns the argument of a numeric function into a value for a
    /// constraint. A variable is marked as a number, and resolves to its
    /// first column; it is an error if it has none. An integer is a long and
    /// a float a double. Any other argument makes the clauses empty and is
    /// an error.
    pub fn resolve_numeric_argument(&mut self, function: &PlainSymbol, position: usize, arg: FnArg) -> (r: Result<QueryValue, AlgebrizerError>)
        requires
            types_wf(old(self).known_types@),
        ensures
            r == numeric_value(*old(self), *function, position, arg),
            final(self)@ == numeric_state(old(self)@, arg),
            types_wf(final(self).known_types@),
            final(self).from == old(self).from,
            final(self).computed_tables == old(self).computed_tables,
            final(self).wheres == old(self).wheres,
            final(self).column_bindings == old(self).column_bindings,
            extends(*old(self), *final(self)),
            old(self).wf() ==> final(self).wf(),
    {
        match arg {
            FnArg::Variable(var) => {
                self.constrain_var_to_numeric(var.clone());
                self.first_column_value(var)
            },
            FnArg::EntidOrInteger(i) => Ok(QueryValue::TypedValue(TypedValue::Long(i))),
            FnArg::Constant(NonIntegerConstant::Float(f)) => Ok(
                QueryValue::TypedValue(TypedValue::Double(f)),
            ),
            _ => {
                self.mark_known_empty(EmptyBecause::NonNumericArgument);
                Err(AlgebrizerError::InvalidArgument(function.clone(), ArgumentKind::Numeric, position))
            },
        }
    }

    /// As `resolve_numeric_argument`, for a function that asks for instants.
    pub fn resolve_instant_argument(&mut self, function: &PlainSymbol, position: usize, arg: FnArg) -> (r: Result<QueryValue, AlgebrizerError>)
        requires
            types_wf(old(self).known_types@),
        ensures
            r == instant_value(*old(self), *function, position, arg),
            final(self)@ == instant_state(old(self)@, arg),
            types_wf(final(self).known_types@),
            final(self).from == old(self).from,
            final(self).computed_tables == old(self).computed_tables,
            final(self).wheres == old(self).wheres,
            final(self).column_bindings == old(self).column_bindings,
            extends(*old(self), *final(self)),
            old(self).wf() ==> final(self).wf(),
    {
        match arg {
            FnArg::Variable(var) => {
                self.constrain_var_to_type(var.clone(), ValueType::Instant);
                self.first_column_value(var)
            },
            FnArg::Constant(NonIntegerConstant::Instant(v)) => Ok(
                QueryValue::TypedValue(TypedValue::Instant(v)),
            ),
            _ => {
                self.mark_known_empty(EmptyBecause::NonInstantArgument);
                Err(AlgebrizerError::InvalidArgument(function.clone(), ArgumentKind::Instant, position))
            },
        }
    }

    /// Turns an argument of any kind into a value for a constraint. Sources
    /// and vectors have no value.
    pub fn resolve_argument(&self, arg: FnArg) -> (r: Result<QueryValue, AlgebrizerError>)
        requires
            !(arg is SrcVar),
            !(arg is Vector),
        ensures
            r == argument_value(*self, arg),
    {
        match arg {
            FnArg::Variable(var) => self.first_column_value(var),
            FnArg::EntidOrInteger(i) => Ok(QueryValue::PrimitiveLong(i)),
            FnArg::IdentOrKeyword(kw) => Ok(QueryValue::TypedValue(TypedValue::Keyword(kw))),
            FnArg::Constant(NonIntegerConstant::Boolean(val)) => Ok(
                QueryValue::TypedValue(TypedValue::Boolean(val)),
            ),
            FnArg::Constant(NonIntegerConstant::Float(f)) => Ok(QueryValue::TypedValue(TypedValue::Double(f))),
            FnArg::Constant(NonIntegerConstant::Text(s)) => Ok(QueryValue::TypedValue(TypedValue::String(s))),
            FnArg::Constant(NonIntegerConstant::Uuid(u)) => Ok(QueryValue::TypedValue(TypedValue::Uuid(u))),
            FnArg::Constant(NonIntegerConstant::Instant(u)) => Ok(
                QueryValue::TypedValue(TypedValue::Instant(u)),
            ),
            FnArg::SrcVar(_) => Ok(QueryValue::PrimitiveLong(0)),
            FnArg::Vector(_) => Ok(QueryValue::PrimitiveLong(0)),
        }
    }
}

/// What a predicate does: the state after it, and the error where it has
/// one.
pub struct Applied {
    pub state: ClausesState,
    pub error: Option<AlgebrizerError>,
}

/// What a numeric comparison of two arguments does. Both arguments are
/// resolved in turn, and the first error ends the work; without an error the
/// comparison becomes a constraint, unless the clauses are known to be empty.
pub open spec fn numeric_predicate(cc: ConjoiningClauses, comparison: NumericComparison, operator: PlainSymbol, left: FnArg, right: FnArg) -> Applied {
    let after_left = numeric_state(cc@, left);
    match numeric_value(cc, operator, 0, left) {
        Err(e) => Applied { state: after_left, error: Some(e) },
        Ok(l) => {
            let after_right = numeric_state(after_left, right);
            match numeric_value(cc, operator, 1, right) {
                Err(e) => Applied { state: after_right, error: Some(e) },
                Ok(r) => Applied {
                    state: if after_right.empty_because is Some {
                        after_right
                    } else {
                        with_where(
                            after_right,
                            ColumnConstraint::NumericInequality { operator: comparison, left: l, right: r },
                        )
                    },
                    error: None,
                },
            }
        },
    }
}

/// What a predicate does. Its operator must be a comparison, and it must
/// have two arguments.
pub open spec fn predicate_applied(cc: ConjoiningClauses, predicate: Predicate) -> Applied {
    match datalog_operator(predicate.operator@) {
        None => Applied { state: cc@, error: Some(AlgebrizerError::UnknownFunction(predicate.operator)) },
        Some(comparison) => if predicate.args@.len() != 2 {
            Applied {
                state: cc@,
                error: Some(
                    AlgebrizerError::InvalidNumberOfArguments(
                        predicate.operator,
                        predicate.args@.len() as usize,
                        2,
                    ),
                ),
            }
        } else {
            numeric_predicate(cc, comparison, predicate.operator, predicate.args@[0], predicate.args@[1])
        },
    }
}

/// Whether the result `r` and the clauses `after` are what `expected` says.
pub open spec fn applied(r: Result<(), AlgebrizerError>, after: ClausesState, expected: Applied) -> bool {
    &&& after == expected.state
    &&& match expected.error {
        Some(e) => r == Err::<(), AlgebrizerError>(e),
        None => r is Ok,
    }
}

impl ConjoiningClauses {
    /// Adds the comparison of the predicate's two arguments as a constraint.
    pub fn apply_numeric_predicate(&mut self, comparison: NumericComparison, predicate: Predicate) -> (r: Result<(), AlgebrizerError>)
        requires
            types_wf(old(self).known_types@),
        ensures
            applied(
                r,
                final(self)@,
                if predicate.args@.len() != 2 {
                    Applied {
                        state: old(self)@,
                        error: Some(
                            AlgebrizerError::InvalidNumberOfArguments(
                                predicate.operator,
                                predicate.args@.len() as usize,
                                2,
                            ),
                        ),
                    }
                } else {
                    numeric_predicate(
                        *old(self),
                        comparison,
                        predicate.operator,
                        predicate.args@[0],
                        predicate.args@[1],
                    )
                },
            ),
            types_wf(final(self).known_types@),
            final(self).from == old(self).from,
            final(self).computed_tables == old(self).computed_tables,
            grows(*old(self), *final(self)),
            old(self).wf() ==> final(self).wf(),
    {
        let Predicate { operator, args } = predicate;
        let mut args = args;
        if args.len() != 2 {
            return Err(AlgebrizerError::InvalidNumberOfArguments(operator, args.len(), 2));
        }
        let right_arg = match args.pop() {
            Some(a) => a,
            None => {
                return Ok(());
            },
        };
        let left_arg = match args.pop() {
            Some(a) => a,
            None => {
                return Ok(());
            },
        };
        let ghost cc0 = *self;
        let left = match self.resolve_numeric_argument(&operator, 0, left_arg) {
            Ok(l) => l,
            Err(e) => {
                return Err(e);
            },
        };
        proof {
            // The second argument sees the same column bindings as the first.
            assert(self.column_bindings == cc0.column_bindings);
        }
        let right = match self.resolve_numeric_argument(&operator, 1, right_arg) {
            Ok(r) => r,
            Err(e) => {
                return Err(e);
            },
        };
        if self.is_known_empty() {
            return Ok(());
        }
        self.add_where(ColumnConstraint::NumericInequality { operator: comparison, left, right });
        Ok(())
    }

    /// Applies a predicate. Only the numeric comparisons are known.
    pub fn apply_predicate(&mut self, predicate: Predicate) -> (r: Result<(), AlgebrizerError>)
        requires
            types_wf(old(self).known_types@),
        ensures
            applied(r, final(self)@, predicate_applied(*old(self), predicate)),
            types_wf(final(self).known_types@),
            final(self).from == old(self).from,
            final(self).computed_tables == old(self).computed_tables,
            grows(*old(self), *final(self)),
            old(self).wf() ==> final(self).wf(),
    {
        match NumericComparison::from_datalog_operator(predicate.operator.0.as_str()) {
            Some(op) => self.apply_numeric_predicate(op, predicate),
            None => Err(AlgebrizerError::UnknownFunction(predicate.operator)),
        }
    }
}

} // verus!

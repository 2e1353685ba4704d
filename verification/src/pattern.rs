//! Patterns: how one pattern `[e a v tx]` adds a table, column bindings and
//! constraints to the conjoining clauses.

use vstd::prelude::*;
use crate::clauses::{
    ClausesState, ConjoiningClauses, alias_text, extends, grows, binding_views, first_index,
    from_ok, lemma_binding_views_index, lemma_first_index, lemma_type_views_index, lookup,
    next_counter, same_but_wheres, types_of, types_wf, with_empty, with_narrowed, with_where,
    find_var,
};
use crate::query::{
    NonIntegerConstant, Pattern, PatternNonValuePlace, PatternValuePlace, Variable,
    contains_var, names_contain,
};
use crate::symbols::NamespacedKeyword;
use crate::text::push_u64;
use crate::types::{
    Column, ColumnConstraint, DatomsColumn, DatomsTable, EmptyBecause, QualifiedAlias, QueryValue,
    ReasonView, SourceAlias, TableAlias, ValueTypeSet, lemma_unit_type, single_type,
};
use crate::values::{
    Attribute, Entid, Schema, TypedValue, ValueType, attribute_of, entid_of, schema_attribute,
    type_of_value,
};

verus! {

/// The typed value that a constant is.
pub open spec fn typed_value_of(c: NonIntegerConstant) -> TypedValue {
    match c {
        NonIntegerConstant::Boolean(b) => TypedValue::Boolean(b),
        NonIntegerConstant::Float(d) => TypedValue::Double(d),
        NonIntegerConstant::Text(s) => TypedValue::String(s),
        NonIntegerConstant::Instant(t) => TypedValue::Instant(t),
        NonIntegerConstant::Uuid(u) => TypedValue::Uuid(u),
    }
}

impl NonIntegerConstant {
    /// This constant as a typed value.
    pub fn into_typed_value(self) -> (r: TypedValue)
        ensures
            r == typed_value_of(self),
    {
        match self {
            NonIntegerConstant::Boolean(b) => TypedValue::Boolean(b),
            NonIntegerConstant::Float(d) => TypedValue::Double(d),
            NonIntegerConstant::Text(s) => TypedValue::String(s),
            NonIntegerConstant::Instant(t) => TypedValue::Instant(t),
            NonIntegerConstant::Uuid(u) => TypedValue::Uuid(u),
        }
    }
}

/// The table for a pattern whose attribute is known.
pub open spec fn table_for_attribute(attribute: Attribute, value: PatternValuePlace) -> Result<DatomsTable, ReasonView> {
    if attribute.fulltext {
        match value {
            PatternValuePlace::Placeholder => Ok(DatomsTable::Datoms),
            PatternValuePlace::Variable(_) => Ok(DatomsTable::AllDatoms),
            PatternValuePlace::Constant(NonIntegerConstant::Text(_)) => Ok(DatomsTable::AllDatoms),
            _ => Err(ReasonView::NonStringFulltextValue),
        }
    } else {
        Ok(DatomsTable::Datoms)
    }
}

/// The table for a pattern whose attribute is not known: `all_datoms` where
/// the value is a string or a variable that may be one, and `datoms`
/// otherwise.
pub open spec fn table_for_unknown(st: ClausesState, value: PatternValuePlace) -> DatomsTable {
    match value {
        PatternValuePlace::Variable(v) => match lookup(st.types, v@) {
            Some(types) => if types.contains(ValueType::String) {
                DatomsTable::AllDatoms
            } else {
                DatomsTable::Datoms
            },
            None => DatomsTable::AllDatoms,
        },
        PatternValuePlace::Constant(NonIntegerConstant::Text(_)) => DatomsTable::AllDatoms,
        _ => DatomsTable::Datoms,
    }
}

/// The table for an attribute given as an entid.
pub open spec fn table_for_entid(schema: Schema, id: Entid, value: PatternValuePlace) -> Result<DatomsTable, ReasonView> {
    match attribute_of(schema.schema_map@, id) {
        Some(a) => table_for_attribute(a, value),
        None => Err(ReasonView::InvalidAttributeEntid(id)),
    }
}

/// The table for an attribute given as an ident.
pub open spec fn table_for_ident(schema: Schema, kw: NamespacedKeyword, value: PatternValuePlace) -> Result<DatomsTable, ReasonView> {
    match schema_attribute(schema, kw@) {
        Some((_, a)) => table_for_attribute(a, value),
        None => Err(ReasonView::InvalidAttributeIdent(kw)),
    }
}

/// The table that a pattern with the given attribute and value reads, or why
/// the pattern cannot match.
pub open spec fn table_for(st: ClausesState, schema: Schema, attribute: PatternNonValuePlace, value: PatternValuePlace) -> Result<DatomsTable, ReasonView> {
    match attribute {
        PatternNonValuePlace::Ident(kw) => table_for_ident(schema, kw, value),
        PatternNonValuePlace::Entid(id) => table_for_entid(schema, id, value),
        PatternNonValuePlace::Placeholder => Ok(table_for_unknown(st, value)),
        PatternNonValuePlace::Variable(v) => match lookup(st.values, v@) {
            None => Ok(table_for_unknown(st, value)),
            Some(TypedValue::Ref(id)) => table_for_entid(schema, id, value),
            Some(TypedValue::Keyword(kw)) => table_for_ident(schema, kw, value),
            Some(bound) => Err(
                ReasonView::InvalidBinding(Column::Fixed(DatomsColumn::Attribute), bound),
            ),
        },
    }
}

/// The type of the values of a pattern's attribute, where the attribute is
/// given and the schema knows it.
pub open spec fn value_type_of(schema: Schema, attribute: PatternNonValuePlace) -> Option<ValueType> {
    match attribute {
        PatternNonValuePlace::Entid(id) => match attribute_of(schema.schema_map@, id) {
            Some(a) => Some(a.value_type),
            None => None,
        },
        PatternNonValuePlace::Ident(kw) => match schema_attribute(schema, kw@) {
            Some((_, a)) => Some(a.value_type),
            None => None,
        },
        _ => None,
    }
}

/// The columns of a variable with one more column.
pub open spec fn with_column(m: Seq<(Variable, Seq<QualifiedAlias>)>, var: Variable, qa: QualifiedAlias) -> Seq<(Variable, Seq<QualifiedAlias>)> {
    match first_index(m, var@) {
        Some(i) => m.update(i, (m[i].0, m[i].1.push(qa))),
        None => m.push((var, seq![qa])),
    }
}

/// Whether the type tag of `var` must be read from the table to which its
/// value column binds it: the variable is no input, its type is not known to
/// be one type, and no column is recorded for its type tag yet.
pub open spec fn needs_type_extraction(st: ClausesState, column: Column, var: Variable) -> bool {
    &&& !names_contain(st.inputs, var@)
    &&& column == Column::Fixed(DatomsColumn::Value)
    &&& single_type(types_of(st, var@)) is None
    &&& lookup(st.extracted, var@) is None
}

/// The state once the column `column` of `table` is bound to `var`. A
/// variable with a value constrains the column to that value; in the entity,
/// attribute and transaction columns the value must be an entity. A variable
/// without a value gets the column as one more of its columns.
pub open spec fn with_binding(st: ClausesState, schema: Schema, table: TableAlias, column: Column, var: Variable) -> ClausesState {
    let qa = QualifiedAlias(table, column);
    match lookup(st.values, var@) {
        Some(bound) => match column {
            Column::Fixed(DatomsColumn::ValueTypeTag) => st,
            Column::Fixed(DatomsColumn::Value) => with_where(
                st,
                ColumnConstraint::Equals(qa, QueryValue::TypedValue(bound)),
            ),
            Column::Variable(_) => with_where(
                st,
                ColumnConstraint::Equals(qa, QueryValue::TypedValue(bound)),
            ),
            _ => match bound {
                TypedValue::Keyword(kw) => match entid_of(schema.ident_map@, kw@) {
                    Some(e) => with_where(st, ColumnConstraint::Equals(qa, QueryValue::Entid(e))),
                    None => with_empty(st, ReasonView::UnresolvedIdent(kw)),
                },
                TypedValue::Ref(e) => with_where(st, ColumnConstraint::Equals(qa, QueryValue::Entid(e))),
                _ => with_empty(st, ReasonView::InvalidBinding(column, bound)),
            },
        },
        None => ClausesState {
            extracted: if needs_type_extraction(st, column, var) {
                st.extracted.push((var, QualifiedAlias(table, Column::Fixed(DatomsColumn::ValueTypeTag))))
            } else {
                st.extracted
            },
            bindings: with_column(st.bindings, var, qa),
            ..st
        },
    }
}

/// The state once a place that holds an entity has said so of its variable.
pub open spec fn with_ref(st: ClausesState, place: PatternNonValuePlace) -> ClausesState {
    match place {
        PatternNonValuePlace::Variable(v) => with_narrowed(st, v, set![ValueType::Ref]),
        _ => st,
    }
}

/// A step of a pattern: the state after it, and whether the pattern goes on.
pub struct Step {
    pub state: ClausesState,
    pub goes_on: bool,
}

/// The step for the entity place.
pub open spec fn entity_step(st: ClausesState, schema: Schema, table: TableAlias, entity: PatternNonValuePlace) -> Step {
    let column = Column::Fixed(DatomsColumn::Entity);
    match entity {
        PatternNonValuePlace::Placeholder => Step { state: st, goes_on: true },
        PatternNonValuePlace::Variable(v) => Step { state: with_binding(st, schema, table, column, v), goes_on: true },
        PatternNonValuePlace::Entid(e) => Step {
            state: with_where(st, ColumnConstraint::Equals(QualifiedAlias(table, column), QueryValue::Entid(e))),
            goes_on: true,
        },
        PatternNonValuePlace::Ident(kw) => match entid_of(schema.ident_map@, kw@) {
            Some(e) => Step {
                state: with_where(
                    st,
                    ColumnConstraint::Equals(QualifiedAlias(table, column), QueryValue::Entid(e)),
                ),
                goes_on: true,
            },
            None => Step { state: with_empty(st, ReasonView::UnresolvedIdent(kw)), goes_on: false },
        },
    }
}

/// The step for the attribute place.
pub open spec fn attribute_step(st: ClausesState, schema: Schema, table: TableAlias, attribute: PatternNonValuePlace) -> Step {
    let column = Column::Fixed(DatomsColumn::Attribute);
    let qa = QualifiedAlias(table, column);
    match attribute {
        PatternNonValuePlace::Placeholder => Step { state: st, goes_on: true },
        PatternNonValuePlace::Variable(v) => Step { state: with_binding(st, schema, table, column, v), goes_on: true },
        PatternNonValuePlace::Entid(e) => if attribute_of(schema.schema_map@, e) is None {
            Step { state: with_empty(st, ReasonView::InvalidAttributeEntid(e)), goes_on: false }
        } else {
            Step { state: with_where(st, ColumnConstraint::Equals(qa, QueryValue::Entid(e))), goes_on: true }
        },
        PatternNonValuePlace::Ident(kw) => match entid_of(schema.ident_map@, kw@) {
            Some(e) => {
                let constrained = with_where(st, ColumnConstraint::Equals(qa, QueryValue::Entid(e)));
                if attribute_of(schema.schema_map@, e) is None {
                    Step {
                        state: with_empty(constrained, ReasonView::InvalidAttributeIdent(kw)),
                        goes_on: false,
                    }
                } else {
                    Step { state: constrained, goes_on: true }
                }
            },
            None => Step { state: with_empty(st, ReasonView::UnresolvedIdent(kw)), goes_on: false },
        },
    }
}

/// The step for the value place, given the type of the attribute's values
/// where that is known.
pub open spec fn value_step(st: ClausesState, schema: Schema, table: TableAlias, value: PatternValuePlace, value_type: Option<ValueType>) -> Step {
    let column = Column::Fixed(DatomsColumn::Value);
    let qa = QualifiedAlias(table, column);
    match value {
        PatternValuePlace::Placeholder => Step { state: st, goes_on: true },
        PatternValuePlace::Variable(v) => {
            let typed = match value_type {
                Some(t) => with_narrowed(st, v, set![t]),
                None => st,
            };
            if value_type is Some && typed.empty_because is Some {
                Step { state: typed, goes_on: false }
            } else {
                Step { state: with_binding(typed, schema, table, column, v), goes_on: true }
            }
        },
        PatternValuePlace::EntidOrInteger(i) => if value_type == Some(ValueType::Ref) {
            Step { state: with_where(st, ColumnConstraint::Equals(qa, QueryValue::Entid(i))), goes_on: true }
        } else {
            Step {
                state: with_where(st, ColumnConstraint::Equals(qa, QueryValue::PrimitiveLong(i))),
                goes_on: true,
            }
        },
        PatternValuePlace::IdentOrKeyword(kw) => if value_type == Some(ValueType::Ref) {
            match entid_of(schema.ident_map@, kw@) {
                Some(e) => Step {
                    state: with_where(st, ColumnConstraint::Equals(qa, QueryValue::Entid(e))),
                    goes_on: true,
                },
                None => Step { state: with_empty(st, ReasonView::UnresolvedIdent(kw)), goes_on: false },
            }
        } else {
            Step {
                state: with_where(
                    with_where(
                        st,
                        ColumnConstraint::Equals(qa, QueryValue::TypedValue(TypedValue::Keyword(kw))),
                    ),
                    ColumnConstraint::HasType(table, ValueType::Keyword),
                ),
                goes_on: true,
            }
        },
        PatternValuePlace::Constant(c) => {
            let typed_value = typed_value_of(c);
            match value_type {
                Some(t) => if type_of_value(typed_value) != t {
                    Step {
                        state: with_empty(st, ReasonView::ValueTypeMismatch(t, typed_value)),
                        goes_on: false,
                    }
                } else {
                    Step {
                        state: with_where(st, ColumnConstraint::Equals(qa, QueryValue::TypedValue(typed_value))),
                        goes_on: true,
                    }
                },
                None => Step {
                    state: with_where(
                        with_where(st, ColumnConstraint::Equals(qa, QueryValue::TypedValue(typed_value))),
                        ColumnConstraint::HasType(table, type_of_value(typed_value)),
                    ),
                    goes_on: true,
                },
            }
        },
    }
}

/// The step for the transaction place.
pub open spec fn tx_step(st: ClausesState, schema: Schema, table: TableAlias, tx: PatternNonValuePlace) -> ClausesState {
    let column = Column::Fixed(DatomsColumn::Tx);
    match tx {
        PatternNonValuePlace::Placeholder => st,
        PatternNonValuePlace::Variable(v) => with_binding(st, schema, table, column, v),
        PatternNonValuePlace::Entid(e) => with_where(
            st,
            ColumnConstraint::Equals(QualifiedAlias(table, column), QueryValue::Entid(e)),
        ),
        PatternNonValuePlace::Ident(_) => st,
    }
}

/// The state once `pattern` is applied to the table alias `table`. Nothing
/// is done for clauses that are known to be empty. The transaction, entity
/// and attribute places say that their variables are refs; then the entity,
/// the attribute, the value and the transaction are bound or constrained in
/// turn, and a place that cannot match ends the pattern.
pub open spec fn with_pattern_for_alias(st: ClausesState, schema: Schema, pattern: Pattern, table: TableAlias) -> ClausesState {
    if st.empty_because is Some {
        st
    } else {
        let refs = with_ref(with_ref(with_ref(st, pattern.tx), pattern.entity), pattern.attribute);
        let e = entity_step(refs, schema, table, pattern.entity);
        if !e.goes_on {
            e.state
        } else {
            let a = attribute_step(e.state, schema, table, pattern.attribute);
            if !a.goes_on {
                a.state
            } else {
                let v = value_step(
                    a.state,
                    schema,
                    table,
                    pattern.value,
                    value_type_of(schema, pattern.attribute),
                );
                if !v.goes_on {
                    v.state
                } else {
                    tx_step(v.state, schema, table, pattern.tx)
                }
            }
        }
    }
}

/// The alias of the next use of `table`: a computed table is numbered by its
/// index, every other table by the running number.
pub open spec fn next_alias(st: ClausesState, table: DatomsTable) -> Seq<char> {
    match table {
        DatomsTable::Computed(u) => alias_text(table, u as nat),
        _ => alias_text(table, st.counter as nat),
    }
}

/// The state once an alias for `table` has been given out.
pub open spec fn after_alias(st: ClausesState, table: DatomsTable) -> ClausesState {
    match table {
        DatomsTable::Computed(_) => st,
        _ => ClausesState { counter: next_counter(st.counter), ..st },
    }
}

/// Whether `b` is `a` with one more table `alias`, after the work `mid`.
pub open spec fn pattern_applied(before: ClausesState, schema: Schema, pattern: Pattern, after: ClausesState) -> bool {
    match table_for(before, schema, pattern.attribute, pattern.value) {
        Ok(table) => exists|alias: TableAlias|
            {
                &&& alias@ == next_alias(before, table)
                &&& after == (ClausesState {
                    from: with_pattern_for_alias(after_alias(before, table), schema, pattern, alias).from.push(
                        SourceAlias(table, alias),
                    ),
                    ..with_pattern_for_alias(after_alias(before, table), schema, pattern, alias)
                })
            },
        Err(_) => after == with_empty(before, ReasonView::AttributeLookupFailed),
    }
}

/// Whether `r` is the table or the reason that `expected` gives.
pub open spec fn table_is(r: Result<DatomsTable, EmptyBecause>, expected: Result<DatomsTable, ReasonView>) -> bool {
    match expected {
        Ok(t) => r == Ok::<DatomsTable, EmptyBecause>(t),
        Err(e) => r is Err && r->Err_0@ == e,
    }
}

/// What is known of a variable's type is read the same from the clauses and
/// from their state.
pub proof fn lemma_known_type(cc: ConjoiningClauses, v: Seq<char>)
    requires
        types_wf(cc.known_types@),
    ensures
        cc.type_of(v) == single_type(types_of(cc@, v)),
        lookup(cc@.types, v) is Some <==> lookup(cc.known_types@, v) is Some,
        lookup(cc@.types, v) is Some ==> lookup(cc@.types, v)->0 == lookup(cc.known_types@, v)->0@,
{
    lemma_type_views_index(cc.known_types@, v);
    lemma_first_index(cc.known_types@, v);
    match first_index(cc.known_types@, v) {
        Some(i) => {
            assert(cc.known_types@[i].1.wf());
            lemma_unit_type(cc.known_types@[i].1);
        },
        None => {
            lemma_unit_type(ValueTypeSet::Any);
        },
    }
}

fn table_for_attribute_and_value(attribute: &Attribute, value: &PatternValuePlace) -> (r: Result<DatomsTable, EmptyBecause>)
    ensures
        table_is(r, table_for_attribute(*attribute, *value)),
        r is Ok ==> !(r->Ok_0 is Computed),
{
    if attribute.fulltext {
        match value {
            PatternValuePlace::Placeholder => Ok(DatomsTable::Datoms),
            PatternValuePlace::Variable(_) => Ok(DatomsTable::AllDatoms),
            PatternValuePlace::Constant(NonIntegerConstant::Text(_)) => Ok(DatomsTable::AllDatoms),
            _ => Err(EmptyBecause::NonStringFulltextValue),
        }
    } else {
        Ok(DatomsTable::Datoms)
    }
}

fn table_for_known_entid(schema: &Schema, id: Entid, value: &PatternValuePlace) -> (r: Result<DatomsTable, EmptyBecause>)
    ensures
        table_is(r, table_for_entid(*schema, id, *value)),
        r is Ok ==> !(r->Ok_0 is Computed),
{
    match schema.attribute_for_entid(id) {
        Some(a) => table_for_attribute_and_value(&a, value),
        None => Err(EmptyBecause::InvalidAttributeEntid(id)),
    }
}

fn table_for_known_ident(schema: &Schema, kw: &NamespacedKeyword, value: &PatternValuePlace) -> (r: Result<DatomsTable, EmptyBecause>)
    ensures
        table_is(r, table_for_ident(*schema, *kw, *value)),
        r is Ok ==> !(r->Ok_0 is Computed),
{
    match schema.attribute_for_ident(kw) {
        Some((_, a)) => table_for_attribute_and_value(&a, value),
        None => Err(EmptyBecause::InvalidAttributeIdent(kw.clone())),
    }
}

impl ConjoiningClauses {
    /// The alias of the next use of `table`.
    pub fn next_alias_for_table(&mut self, table: DatomsTable) -> (r: TableAlias)
        ensures
            r@ == next_alias(old(self)@, table),
            final(self)@ == after_alias(old(self)@, table),
            same_but_wheres(
                ConjoiningClauses { alias_counter: final(self).alias_counter, ..*old(self) },
                *final(self),
            ),
            final(self).wheres == old(self).wheres,
            final(self).empty_because == old(self).empty_because,
            extends(*old(self), *final(self)),
    {
        let n: usize = match table {
            DatomsTable::Computed(u) => u,
            _ => {
                let n = self.alias_counter;
                self.alias_counter = if n < usize::MAX {
                    n + 1
                } else {
                    0
                };
                n
            },
        };
        let mut alias = crate::text::owned(table.name());
        if n < 10 {
            alias.push('0');
        }
        push_u64(&mut alias, n as u64);
        proof {
            let pad: Seq<char> = if n < 10 {
                seq!['0']
            } else {
                seq![]
            };
            assert(alias@ =~= crate::types::table_name(table) + pad + crate::text::nat_decimal(n as nat));
        }
        alias
    }

    /// The table for a pattern whose attribute is not known.
    pub fn table_for_unknown_attribute(&self, value: &PatternValuePlace) -> (r: DatomsTable)
        requires
            types_wf(self.known_types@),
        ensures
            r == table_for_unknown(self@, *value),
            !(r is Computed),
    {
        match value {
            PatternValuePlace::Variable(v) => {
                proof {
                    lemma_known_type(*self, v@);
                }
                match find_var(&self.known_types, v) {
                    Some(i) => if self.known_types[i].1.contains(ValueType::String) {
                        DatomsTable::AllDatoms
                    } else {
                        DatomsTable::Datoms
                    },
                    None => DatomsTable::AllDatoms,
                }
            },
            PatternValuePlace::Constant(NonIntegerConstant::Text(_)) => DatomsTable::AllDatoms,
            _ => DatomsTable::Datoms,
        }
    }

    /// The table that a pattern with the given attribute and value reads, or
    /// why the pattern cannot match.
    pub fn table_for_places(&self, schema: &Schema, attribute: &PatternNonValuePlace, value: &PatternValuePlace) -> (r: Result<DatomsTable, EmptyBecause>)
        requires
            types_wf(self.known_types@),
        ensures
            table_is(r, table_for(self@, *schema, *attribute, *value)),
            r is Ok ==> !(r->Ok_0 is Computed),
    {
        match attribute {
            PatternNonValuePlace::Ident(kw) => table_for_known_ident(schema, kw, value),
            PatternNonValuePlace::Entid(id) => table_for_known_entid(schema, *id, value),
            PatternNonValuePlace::Placeholder => Ok(self.table_for_unknown_attribute(value)),
            PatternNonValuePlace::Variable(v) => match self.bound_value(v) {
                None => Ok(self.table_for_unknown_attribute(value)),
                Some(TypedValue::Ref(id)) => table_for_known_entid(schema, *id, value),
                Some(TypedValue::Keyword(kw)) => table_for_known_ident(schema, kw, value),
                Some(bound) => Err(
                    EmptyBecause::InvalidBinding(Column::Fixed(DatomsColumn::Attribute), bound.clone()),
                ),
            },
        }
    }

    /// The type of the values of the pattern's attribute, where known.
    pub fn get_value_type(&self, schema: &Schema, pattern: &Pattern) -> (r: Option<ValueType>)
        ensures
            r == value_type_of(*schema, pattern.attribute),
    {
        match &pattern.attribute {
            PatternNonValuePlace::Entid(id) => match schema.attribute_for_entid(*id) {
                Some(a) => Some(a.value_type),
                None => None,
            },
            PatternNonValuePlace::Ident(kw) => match schema.attribute_for_ident(kw) {
                Some((_, a)) => Some(a.value_type),
                None => None,
            },
            _ => None,
        }
    }

    /// Binds the column `column` of `table` to `var`. The column must not be
    /// the type-tag column, which no variable can name.
    pub fn bind_column_to_var(&mut self, schema: &Schema, table: TableAlias, column: Column, var: Variable)
        requires
            column != Column::Fixed(DatomsColumn::ValueTypeTag),
            types_wf(old(self).known_types@),
        ensures
            final(self)@ == with_binding(old(self)@, *schema, table, column, var),
            final(self).known_types == old(self).known_types,
            final(self).from == old(self).from,
            final(self).computed_tables == old(self).computed_tables,
            extends(*old(self), *final(self)),
            old(self).wf() ==> final(self).wf(),
    {
        let bound: Option<TypedValue> = match self.bound_value(&var) {
            Some(b) => Some(b.clone()),
            None => None,
        };
        match bound {
            Some(bound_val) => {
                match column {
                    Column::Variable(_) => {
                        self.constrain_column_to_constant(table, column, bound_val);
                    },
                    Column::Fixed(DatomsColumn::Value) => {
                        self.constrain_column_to_constant(table, column, bound_val);
                    },
                    _ => {
                        match bound_val {
                            TypedValue::Keyword(kw) => {
                                match self.entid_for_ident(schema, &kw) {
                                    Some(entid) => {
                                        self.constrain_column_to_entity(table, column, entid);
                                    },
                                    None => {
                                        self.mark_known_empty(EmptyBecause::UnresolvedIdent(kw));
                                    },
                                }
                            },
                            TypedValue::Ref(entid) => {
                                self.constrain_column_to_entity(table, column, entid);
                            },
                            other => {
                                self.mark_known_empty(EmptyBecause::InvalidBinding(column, other));
                            },
                        }
                    },
                }
            },
            None => {
                proof {
                    lemma_known_type(*self, var@);
                    lemma_binding_views_index(self.column_bindings@, var@);
                    lemma_first_index(self.column_bindings@, var@);
                }
                let late_binding = contains_var(&self.input_variables, &var);
                let is_value = match column {
                    Column::Fixed(DatomsColumn::Value) => true,
                    _ => false,
                };
                let needs_type_extraction = !late_binding && is_value && self.known_type(&var).is_none()
                    && self.extracted_type(&var).is_none();
                let alias = QualifiedAlias(table, column);
                if needs_type_extraction {
                    self.extracted_types.push((var.clone(), alias.for_type_tag()));
                }
                let ghost before = binding_views(self.column_bindings@);
                match find_var(&self.column_bindings, &var) {
                    Some(i) => {
                        let (key, mut cols) = self.column_bindings.remove(i);
                        cols.push(alias);
                        self.column_bindings.insert(i, (key, cols));
                        assert(binding_views(self.column_bindings@) =~= before.update(
                            i as int,
                            (before[i as int].0, before[i as int].1.push(alias)),
                        ));
                    },
                    None => {
                        let mut cols: Vec<QualifiedAlias> = Vec::new();
                        cols.push(alias);
                        self.column_bindings.push((var, cols));
                        assert(binding_views(self.column_bindings@) =~= before.push((var, seq![alias])));
                    },
                }
            },
        }
    }

    /// Says that the variable in a place that holds an entity is a ref.
    pub fn constrain_to_ref(&mut self, place: &PatternNonValuePlace)
        requires
            types_wf(old(self).known_types@),
        ensures
            final(self)@ == with_ref(old(self)@, *place),
            types_wf(final(self).known_types@),
            final(self).from == old(self).from,
            final(self).computed_tables == old(self).computed_tables,
            extends(*old(self), *final(self)),
            old(self).wf() ==> final(self).wf(),
    {
        match place {
            PatternNonValuePlace::Variable(v) => {
                self.constrain_var_to_type(v.clone(), ValueType::Ref);
            },
            _ => {},
        }
    }

    /// The transaction place holds an entity.
    pub fn constrain_to_tx(&mut self, tx: &PatternNonValuePlace)
        requires
            types_wf(old(self).known_types@),
        ensures
            final(self)@ == with_ref(old(self)@, *tx),
            types_wf(final(self).known_types@),
            final(self).from == old(self).from,
            final(self).computed_tables == old(self).computed_tables,
            extends(*old(self), *final(self)),
            old(self).wf() ==> final(self).wf(),
    {
        self.constrain_to_ref(tx);
    }
}

/// A list of tables stays in order when a table that is not computed is
/// added.
pub proof fn lemma_from_push(from: Seq<SourceAlias>, alias: SourceAlias, tables: int)
    requires
        from_ok(from, tables),
        !(alias.0 is Computed),
    ensures
        from_ok(from.push(alias), tables),
{
    let next = from.push(alias);
    assert forall|j: int| 0 <= j < next.len() implies ((#[trigger] next[j]).0 matches DatomsTable::Computed(
        i,
    ) ==> i < tables) by {
        if j < from.len() {
            assert(next[j] == from[j]);
        }
    }
    assert forall|j: int, k: int| 0 <= j < k < next.len() implies !((#[trigger] next[j]).0 is Computed
        && (#[trigger] next[k]).0 == next[j].0) by {
        assert(next[j] == from[j]);
        if k < from.len() {
            assert(next[k] == from[k]);
        }
    }
}

impl ConjoiningClauses {
    fn apply_entity(&mut self, schema: &Schema, table: &TableAlias, entity: &PatternNonValuePlace) -> (r: bool)
        requires
            types_wf(old(self).known_types@),
        ensures
            final(self)@ == entity_step(old(self)@, *schema, *table, *entity).state,
            r == entity_step(old(self)@, *schema, *table, *entity).goes_on,
            types_wf(final(self).known_types@),
            final(self).from == old(self).from,
            final(self).computed_tables == old(self).computed_tables,
            extends(*old(self), *final(self)),
            old(self).wf() ==> final(self).wf(),
    {
        match entity {
            PatternNonValuePlace::Placeholder => {},
            PatternNonValuePlace::Variable(v) => {
                self.bind_column_to_var(schema, table.clone(), Column::Fixed(DatomsColumn::Entity), v.clone());
            },
            PatternNonValuePlace::Entid(entid) => {
                self.constrain_column_to_entity(table.clone(), Column::Fixed(DatomsColumn::Entity), *entid);
            },
            PatternNonValuePlace::Ident(ident) => {
                match self.entid_for_ident(schema, ident) {
                    Some(entid) => {
                        self.constrain_column_to_entity(table.clone(), Column::Fixed(DatomsColumn::Entity), entid);
                    },
                    None => {
                        self.mark_known_empty(EmptyBecause::UnresolvedIdent(ident.clone()));
                        return false;
                    },
                }
            },
        }
        true
    }

    fn apply_attribute(&mut self, schema: &Schema, table: &TableAlias, attribute: &PatternNonValuePlace) -> (r: bool)
        requires
            types_wf(old(self).known_types@),
        ensures
            final(self)@ == attribute_step(old(self)@, *schema, *table, *attribute).state,
            r == attribute_step(old(self)@, *schema, *table, *attribute).goes_on,
            types_wf(final(self).known_types@),
            final(self).from == old(self).from,
            final(self).computed_tables == old(self).computed_tables,
            extends(*old(self), *final(self)),
            old(self).wf() ==> final(self).wf(),
    {
        match attribute {
            PatternNonValuePlace::Placeholder => {},
            PatternNonValuePlace::Variable(v) => {
                self.bind_column_to_var(schema, table.clone(), Column::Fixed(DatomsColumn::Attribute), v.clone());
            },
            PatternNonValuePlace::Entid(entid) => {
                if schema.attribute_for_entid(*entid).is_none() {
                    self.mark_known_empty(EmptyBecause::InvalidAttributeEntid(*entid));
                    return false;
                }
                self.constrain_attribute(table.clone(), *entid);
            },
            PatternNonValuePlace::Ident(ident) => {
                match self.entid_for_ident(schema, ident) {
                    Some(entid) => {
                        self.constrain_attribute(table.clone(), entid);
                        if schema.attribute_for_entid(entid).is_none() {
                            self.mark_known_empty(EmptyBecause::InvalidAttributeIdent(ident.clone()));
                            return false;
                        }
                    },
                    None => {
                        self.mark_known_empty(EmptyBecause::UnresolvedIdent(ident.clone()));
                        return false;
                    },
                }
            },
        }
        true
    }

    fn apply_value(&mut self, schema: &Schema, table: &TableAlias, value: &PatternValuePlace, value_type: Option<ValueType>) -> (r: bool)
        requires
            types_wf(old(self).known_types@),
        ensures
            final(self)@ == value_step(old(self)@, *schema, *table, *value, value_type).state,
            r == value_step(old(self)@, *schema, *table, *value, value_type).goes_on,
            types_wf(final(self).known_types@),
            final(self).from == old(self).from,
            final(self).computed_tables == old(self).computed_tables,
            extends(*old(self), *final(self)),
            old(self).wf() ==> final(self).wf(),
    {
        match value {
            PatternValuePlace::Placeholder => {},
            PatternValuePlace::Variable(v) => {
                match value_type {
                    Some(this_type) => {
                        self.constrain_var_to_type(v.clone(), this_type);
                        if self.is_known_empty() {
                            return false;
                        }
                    },
                    None => {},
                }
                self.bind_column_to_var(schema, table.clone(), Column::Fixed(DatomsColumn::Value), v.clone());
            },
            PatternValuePlace::EntidOrInteger(i) => {
                let is_ref = match value_type {
                    Some(ValueType::Ref) => true,
                    _ => false,
                };
                if is_ref {
                    self.constrain_column_to_entity(table.clone(), Column::Fixed(DatomsColumn::Value), *i);
                } else {
                    self.constrain_value_to_numeric(table.clone(), *i);
                }
            },
            PatternValuePlace::IdentOrKeyword(kw) => {
                let is_ref = match value_type {
                    Some(ValueType::Ref) => true,
                    _ => false,
                };
                if is_ref {
                    match self.entid_for_ident(schema, kw) {
                        Some(entid) => {
                            self.constrain_column_to_entity(table.clone(), Column::Fixed(DatomsColumn::Value), entid);
                        },
                        None => {
                            self.mark_known_empty(EmptyBecause::UnresolvedIdent(kw.clone()));
                            return false;
                        },
                    }
                } else {
                    self.constrain_column_to_constant(
                        table.clone(),
                        Column::Fixed(DatomsColumn::Value),
                        TypedValue::Keyword(kw.clone()),
                    );
                    self.add_where(ColumnConstraint::HasType(table.clone(), ValueType::Keyword));
                }
            },
            PatternValuePlace::Constant(c) => {
                let typed_value = c.clone().into_typed_value();
                let typed_value_type = typed_value.value_type();
                match value_type {
                    Some(t) => {
                        if typed_value_type != t {
                            self.mark_known_empty(EmptyBecause::ValueTypeMismatch(t, typed_value));
                            return false;
                        }
                        self.constrain_column_to_constant(
                            table.clone(),
                            Column::Fixed(DatomsColumn::Value),
                            typed_value,
                        );
                    },
                    None => {
                        self.constrain_column_to_constant(
                            table.clone(),
                            Column::Fixed(DatomsColumn::Value),
                            typed_value,
                        );
                        self.add_where(ColumnConstraint::HasType(table.clone(), typed_value_type));
                    },
                }
            },
        }
        true
    }

    fn apply_tx(&mut self, schema: &Schema, table: &TableAlias, tx: &PatternNonValuePlace)
        requires
            types_wf(old(self).known_types@),
        ensures
            final(self)@ == tx_step(old(self)@, *schema, *table, *tx),
            types_wf(final(self).known_types@),
            final(self).from == old(self).from,
            final(self).computed_tables == old(self).computed_tables,
            extends(*old(self), *final(self)),
            old(self).wf() ==> final(self).wf(),
    {
        match tx {
            PatternNonValuePlace::Placeholder => {},
            PatternNonValuePlace::Variable(v) => {
                self.bind_column_to_var(schema, table.clone(), Column::Fixed(DatomsColumn::Tx), v.clone());
            },
            PatternNonValuePlace::Entid(entid) => {
                self.constrain_column_to_entity(table.clone(), Column::Fixed(DatomsColumn::Tx), *entid);
            },
            PatternNonValuePlace::Ident(_) => {},
        }
    }

    /// Applies `pattern` to the table alias `alias`: says that its entity,
    /// attribute and transaction are refs, and binds or constrains the four
    /// places in turn. Clauses that are known to be empty are left as they
    /// are, and a place that cannot match ends the pattern.
    pub fn apply_pattern_clause_for_alias(&mut self, schema: &Schema, pattern: &Pattern, alias: &SourceAlias)
        requires
            types_wf(old(self).known_types@),
        ensures
            final(self)@ == with_pattern_for_alias(old(self)@, *schema, *pattern, alias.1),
            old(self).known_empty() ==> *final(self) == *old(self),
            types_wf(final(self).known_types@),
            final(self).from == old(self).from,
            final(self).computed_tables == old(self).computed_tables,
            extends(*old(self), *final(self)),
            old(self).wf() ==> final(self).wf(),
    {
        if self.is_known_empty() {
            return ;
        }
        self.constrain_to_tx(&pattern.tx);
        self.constrain_to_ref(&pattern.entity);
        self.constrain_to_ref(&pattern.attribute);
        if !self.apply_entity(schema, &alias.1, &pattern.entity) {
            return ;
        }
        if !self.apply_attribute(schema, &alias.1, &pattern.attribute) {
            return ;
        }
        let value_type = self.get_value_type(schema, pattern);
        if !self.apply_value(schema, &alias.1, &pattern.value, value_type) {
            return ;
        }
        self.apply_tx(schema, &alias.1, &pattern.tx);
    }

    /// The table that `pattern` reads, under a new alias; `None` where the
    /// pattern cannot match.
    pub fn alias_table(&mut self, schema: &Schema, pattern: &Pattern) -> (r: Option<SourceAlias>)
        requires
            types_wf(old(self).known_types@),
        ensures
            match table_for(old(self)@, *schema, pattern.attribute, pattern.value) {
                Ok(table) => r is Some && (r->0).0 == table && (r->0).1@ == next_alias(old(self)@, table)
                    && final(self)@ == after_alias(old(self)@, table) && !(table is Computed),
                Err(_) => r is None && final(self)@ == old(self)@,
            },
            final(self).known_types == old(self).known_types,
            final(self).from == old(self).from,
            final(self).computed_tables == old(self).computed_tables,
            final(self).wheres == old(self).wheres,
            final(self).empty_because == old(self).empty_because,
            extends(*old(self), *final(self)),
    {
        match self.table_for_places(schema, &pattern.attribute, &pattern.value) {
            Ok(table) => {
                let alias = self.next_alias_for_table(table);
                Some(SourceAlias(table, alias))
            },
            Err(_) => None,
        }
    }

    /// Applies `pattern`: finds its table, gives the table a new alias,
    /// applies the pattern to that alias, and adds the table to those that
    /// the clauses read. A pattern for which no table is found makes the
    /// clauses empty.
    pub fn apply_pattern(&mut self, schema: &Schema, pattern: Pattern)
        requires
            old(self).ok(),
        ensures
            pattern_applied(old(self)@, *schema, pattern, final(self)@),
            final(self).ok(),
            final(self).computed_tables == old(self).computed_tables,
            final(self).from@.len() <= old(self).from@.len() + 1,
            grows(*old(self), *final(self)),
    {
        match self.alias_table(schema, &pattern) {
            Some(alias) => {
                self.apply_pattern_clause_for_alias(schema, &pattern, &alias);
                proof {
                    lemma_from_push(self.from@, alias, self.computed_tables@.len() as int);
                }
                self.from.push(alias);
            },
            None => {
                self.mark_known_empty(EmptyBecause::AttributeLookupFailed);
            },
        }
    }
}

/// A bare integer in the value place of a pattern whose attribute's values
/// are not known to be refs becomes a constraint on the bare integer, which
/// the translator guards against booleans.
pub proof fn lemma_bare_integer(st: ClausesState, schema: Schema, table: TableAlias, i: i64, value_type: Option<ValueType>)
    requires
        value_type != Some(ValueType::Ref),
    ensures
        value_step(st, schema, table, PatternValuePlace::EntidOrInteger(i), value_type).state == with_where(
            st,
            ColumnConstraint::Equals(
                QualifiedAlias(table, Column::Fixed(DatomsColumn::Value)),
                QueryValue::PrimitiveLong(i),
            ),
        ),
        value_step(st, schema, table, PatternValuePlace::EntidOrInteger(i), value_type).goes_on,
{
}

} // verus!

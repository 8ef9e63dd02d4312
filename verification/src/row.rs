//! Column candidates, the plan of each field, and the decisions taken while a field
//! is filled from a row.

use crate::attributes::{parse_child_attributes, parse_container_attributes, parsed_child,
    parsed_container, Attribute, ConfigError, ConfigFault};
use crate::types::{
    rename_all, renamed, same_text, text_of, texts, ChildAttributes, ChildModel,
    ContainerAttributes, ContainerModel, RenameAll,
};
use vstd::prelude::*;

verus! {

/// A field's name without the marks of a raw identifier in front of it.
pub open spec fn strip_raw(s: Seq<char>) -> Seq<char>
    decreases s.len(),
{
    if s.len() >= 2 && s[0] == 'r' && s[1] == '#' {
        strip_raw(s.skip(2))
    } else {
        s
    }
}

/// Removes the marks of a raw identifier from the front of a field's name.
pub fn strip_raw_prefix(name: &str) -> (r: String)
    ensures
        r@ == strip_raw(name@),
{
    let n: usize = name.unicode_len();
    let mut i: usize = 0;
    let mut done = false;
    assert(name@.skip(0) =~= name@);
    while !done
        invariant
            i <= n,
            n == name@.len(),
            strip_raw(name@) == strip_raw(name@.skip(i as int)),
            done ==> strip_raw(name@.skip(i as int)) == name@.skip(i as int),
        decreases n - i + (if done { 0int } else { 1int }),
    {
        if n - i < 2 {
            done = true;
        } else if name.get_char(i) != 'r' {
            done = true;
        } else if name.get_char(i + 1) != '#' {
            done = true;
        } else {
            assert(name@.skip(i as int).skip(2) =~= name@.skip(i + 2));
            i = i + 2;
        }
    }
    assert(name@.subrange(i as int, n as int) =~= name@.skip(i as int));
    String::from_str(name.substring_char(i, n))
}

/// The base column name of a field: its alias where it has one; else its name without
/// raw-identifier marks, rewritten into the type's naming convention where one is set.
pub open spec fn base_name(field: Seq<char>, alias: Option<Seq<char>>, convention: Option<RenameAll>) -> Seq<char> {
    match alias {
        Some(a) => a,
        None => match convention {
            Some(tag) => renamed(strip_raw(field), tag),
            None => strip_raw(field),
        },
    }
}

/// Resolves the base column name of a field.
pub fn resolve_base_name(field: &str, alias: &Option<String>, convention: Option<RenameAll>) -> (r: String)
    ensures
        r@ == base_name(field@, text_of(*alias), convention),
{
    match alias {
        Some(a) => a.clone(),
        None => {
            let raw = strip_raw_prefix(field);
            match convention {
                Some(tag) => rename_all(raw.as_str(), tag),
                None => raw,
            }
        },
    }
}

/// The candidates that one prefix gives: the prefix, each separator in order, the base.
pub open spec fn prefixed_with(prefix: Seq<char>, separators: Seq<Seq<char>>, base: Seq<char>) -> Seq<Seq<char>> {
    Seq::new(separators.len(), |j: int| prefix + separators[j] + base)
}

/// The candidates of the first `n` prefixes, prefix by prefix.
pub open spec fn prefixed_candidates(
    prefixes: Seq<Seq<char>>,
    separators: Seq<Seq<char>>,
    base: Seq<char>,
    n: int,
) -> Seq<Seq<char>>
    decreases n,
{
    if n <= 0 {
        Seq::empty()
    } else {
        prefixed_candidates(prefixes, separators, base, n - 1) + prefixed_with(
            prefixes[n - 1],
            separators,
            base,
        )
    }
}

/// The column names probed for a field, in the order of probing: every prefix with
/// every separator before the base name, and the base name itself last.
pub open spec fn candidate_columns(prefixes: Seq<Seq<char>>, separators: Seq<Seq<char>>, base: Seq<char>) -> Seq<Seq<char>> {
    prefixed_candidates(prefixes, separators, base, prefixes.len() as int).push(base)
}

/// Builds the ordered candidate column names of a field from its base name.
pub fn resolve_candidates(prefixes: &Vec<String>, separators: &Vec<String>, base: &String) -> (r: Vec<String>)
    ensures
        texts(r@) == candidate_columns(texts(prefixes@), texts(separators@), base@),
        r@.len() == prefixes@.len() * separators@.len() + 1,
        r@[r@.len() - 1]@ == base@,
{
    proof {
        lemma_candidate_count(texts(prefixes@), texts(separators@), base@);
    }
    let ghost ps = texts(prefixes@);
    let ghost ss = texts(separators@);
    let mut out: Vec<String> = Vec::new();
    let mut p: usize = 0;
    assert(texts(out@) =~= prefixed_candidates(ps, ss, base@, 0));
    while p < prefixes.len()
        invariant
            p <= prefixes.len(),
            ps == texts(prefixes@),
            ss == texts(separators@),
            texts(out@) == prefixed_candidates(ps, ss, base@, p as int),
        decreases prefixes.len() - p,
    {
        let ghost block = prefixed_with(ps[p as int], ss, base@);
        let ghost done = texts(out@);
        let mut j: usize = 0;
        assert(texts(out@) =~= done + block.take(0));
        while j < separators.len()
            invariant
                j <= separators.len(),
                p < prefixes.len(),
                ps == texts(prefixes@),
                ss == texts(separators@),
                block == prefixed_with(ps[p as int], ss, base@),
                texts(out@) == done + block.take(j as int),
            decreases separators.len() - j,
        {
            let mut c = prefixes[p].clone();
            c.append(separators[j].as_str());
            c.append(base.as_str());
            let ghost before = out@;
            out.push(c);
            assert(texts(out@) =~= texts(before).push(c@));
            assert(c@ == block[j as int]);
            assert(block.take(j + 1) =~= block.take(j as int).push(block[j as int]));
            assert(texts(out@) =~= done + block.take(j + 1));
            j = j + 1;
        }
        assert(block.take(separators.len() as int) =~= block);
        p = p + 1;
    }
    let ghost before = out@;
    out.push(base.clone());
    assert(texts(out@) =~= texts(before).push(base@));
    out
}

/// What is read of a field's declared type.
#[derive(Debug, Clone)]
pub enum FieldType {
    /// A type written as a path: whether it starts with `::`, and its first segment.
    Path { leading_colon: bool, first_segment: String },
    /// Any other type.
    Other,
}

/// Whether a declared type is the optional wrapper: a path without a leading `::`
/// whose first segment is `Option`.
pub open spec fn is_option(typ: FieldType) -> bool {
    match typ {
        FieldType::Path { leading_colon, first_segment } => !leading_colon && first_segment@
            == "Option"@,
        FieldType::Other => false,
    }
}

pub fn is_path_option(typ: &FieldType) -> (r: bool)
    ensures
        r == is_option(*typ),
{
    match typ {
        FieldType::Path { leading_colon, first_segment } => !*leading_colon && same_text(
            first_segment.as_str(),
            "Option",
        ),
        FieldType::Other => false,
    }
}

/// The four ways in which a field is filled.
#[derive(Debug, Clone, Copy, PartialEq, Eq, Structural)]
pub enum PlanShape {
    /// A nested record from the same row, taken as it is.
    Flatten,
    /// A nested record of the intermediate type, then the conversion.
    FlattenConvert,
    /// The first existing candidate column, at the field's own type.
    Scalar,
    /// The first existing candidate column, at the intermediate type, then the conversion.
    ScalarConvert,
}

/// How one field is filled from a row.
#[derive(Debug, Clone)]
pub struct FieldPlan {
    pub name: String,
    pub flatten: bool,
    pub intermediate: Option<String>,
    pub candidates: Vec<String>,
    pub optional: bool,
    pub default_on_missing: bool,
}

pub struct FieldPlanModel {
    pub name: Seq<char>,
    pub flatten: bool,
    pub intermediate: Option<Seq<char>>,
    pub candidates: Seq<Seq<char>>,
    pub optional: bool,
    pub default_on_missing: bool,
}

impl View for FieldPlan {
    type V = FieldPlanModel;

    open spec fn view(&self) -> FieldPlanModel {
        FieldPlanModel {
            name: self.name@,
            flatten: self.flatten,
            intermediate: text_of(self.intermediate),
            candidates: texts(self.candidates@),
            optional: self.optional,
            default_on_missing: self.default_on_missing,
        }
    }
}

impl FieldPlanModel {
    pub open spec fn shape(self) -> PlanShape {
        if self.flatten {
            if self.intermediate.is_some() {
                PlanShape::FlattenConvert
            } else {
                PlanShape::Flatten
            }
        } else {
            if self.intermediate.is_some() {
                PlanShape::ScalarConvert
            } else {
                PlanShape::Scalar
            }
        }
    }
}

impl FieldPlan {
    /// Which of the four ways this plan is.
    pub fn shape(&self) -> (r: PlanShape)
        ensures
            r == self@.shape(),
    {
        if self.flatten {
            if self.intermediate.is_some() {
                PlanShape::FlattenConvert
            } else {
                PlanShape::Flatten
            }
        } else {
            if self.intermediate.is_some() {
                PlanShape::ScalarConvert
            } else {
                PlanShape::Scalar
            }
        }
    }
}

/// The plan of a field. A flattened field has no candidates: it reads no column.
pub open spec fn planned_field(name: Seq<char>, optional: bool, container: ContainerModel, child: ChildModel) -> FieldPlanModel {
    FieldPlanModel {
        name,
        flatten: child.flatten,
        intermediate: child.try_from,
        candidates: if child.flatten {
            Seq::empty()
        } else {
            candidate_columns(
                container.possible_prefix,
                container.possible_separator,
                base_name(name, child.alias, container.rename_all),
            )
        },
        optional,
        default_on_missing: child.default,
    }
}

/// Plans one field from its name, its optionality and the directives of type and field.
pub fn plan_field(name: &str, optional: bool, container: &ContainerAttributes, child: &ChildAttributes) -> (r: FieldPlan)
    ensures
        r@ == planned_field(name@, optional, container@, child@),
{
    let candidates = if child.flatten {
        let none: Vec<String> = Vec::new();
        assert(texts(none@) =~= Seq::<Seq<char>>::empty());
        none
    } else {
        let base = resolve_base_name(name, &child.alias, container.rename_all);
        resolve_candidates(&container.possible_prefix, &container.possible_separator, &base)
    };
    FieldPlan {
        name: String::from_str(name),
        flatten: child.flatten,
        intermediate: child.try_from.clone(),
        candidates,
        optional,
        default_on_missing: child.default,
    }
}

/// Why a field could not be filled.
#[derive(Debug, Clone, Copy, PartialEq, Eq, Structural)]
pub enum Failure {
    /// No candidate column exists, the field is required and has no default.
    ColumnNotFound,
    /// The conversion from the intermediate type failed.
    ConversionFailed,
    /// The row, or the nested record, reported an error: it is passed on unchanged.
    Propagated,
}

/// How the filling of a field ends.
#[derive(Debug, Clone, Copy, PartialEq, Eq, Structural)]
pub enum Outcome {
    /// The value that was obtained, as it is.
    Value,
    /// The value that was obtained, wrapped as present.
    Present,
    /// The absent value of an optional field.
    Absent,
    /// The default value of the field's type.
    Default,
    /// No value: the record is not built.
    Failed(Failure),
}

/// What the caller does next for a field.
#[derive(Debug, Clone, Copy, PartialEq, Eq, Structural)]
pub enum Action {
    /// Fetch the column named by the candidate at this index, at the intermediate
    /// type where the plan converts, else at the field's own type.
    Fetch { candidate: usize },
    /// Build the nested record from the same row, of the intermediate type where the
    /// plan converts, else of the field's own type.
    Nested,
    /// Convert the value that was obtained into the field's type.
    Convert,
    /// Nothing more: the field ends so.
    Finish(Outcome),
}

/// What a fetch, or the building of a nested record, reported.
#[derive(Debug, Clone, Copy, PartialEq, Eq, Structural)]
pub enum Event {
    /// A value was obtained.
    Value,
    /// The row reported that the column does not exist.
    NotFound,
    /// Any other error.
    Failed,
}

/// Whether a row has a column of the given name.
pub fn has_column(columns: &Vec<String>, name: &str) -> (r: bool)
    ensures
        r == texts(columns@).contains(name@),
{
    let mut k: usize = 0;
    while k < columns.len()
        invariant
            k <= columns.len(),
            forall|x: int| 0 <= x < k ==> texts(columns@)[x] != name@,
        decreases columns.len() - k,
    {
        if same_text(columns[k].as_str(), name) {
            assert(texts(columns@)[k as int] == name@);
            return true;
        }
        k = k + 1;
    }
    false
}

/// The first candidate, in the order of probing, that the row has a column for.
pub fn find_column(candidates: &Vec<String>, columns: &Vec<String>) -> (r: Option<usize>)
    ensures
        match r {
            Some(i) => i < candidates.len() && texts(columns@).contains(candidates@[i as int]@)
                && forall|k: int|
                0 <= k < i ==> !texts(columns@).contains(#[trigger] candidates@[k]@),
            None => forall|k: int|
                0 <= k < candidates.len() ==> !texts(columns@).contains(
                    #[trigger] candidates@[k]@,
                ),
        },
{
    let mut i: usize = 0;
    while i < candidates.len()
        invariant
            i <= candidates.len(),
            forall|k: int| 0 <= k < i ==> !texts(columns@).contains(#[trigger] candidates@[k]@),
        decreases candidates.len() - i,
    {
        if has_column(columns, candidates[i].as_str()) {
            return Some(i);
        }
        i = i + 1;
    }
    None
}

/// How a scalar field ends when no column, or no value in it, was found: an optional
/// field is absent, a required one takes its default where it has one, and fails else.
pub open spec fn missing_outcome(optional: bool, default_on_missing: bool) -> Outcome {
    if optional {
        Outcome::Absent
    } else if default_on_missing {
        Outcome::Default
    } else {
        Outcome::Failed(Failure::ColumnNotFound)
    }
}

/// How a field ends once its value is there: a flattened field takes it as it is, a
/// scalar field wraps it as present where the field is optional.
pub open spec fn obtained_outcome(flatten: bool, optional: bool) -> Outcome {
    if !flatten && optional {
        Outcome::Present
    } else {
        Outcome::Value
    }
}

/// The action after a fetch or the building of a nested record. A value is converted
/// where the plan asks for it. A missing column of a scalar field ends as a missing
/// candidate does; every other error, and every error of a nested record, is passed on.
pub open spec fn action_after(plan: FieldPlanModel, event: Event) -> Action {
    match event {
        Event::Value => if plan.intermediate.is_some() {
            Action::Convert
        } else {
            Action::Finish(obtained_outcome(plan.flatten, plan.optional))
        },
        Event::NotFound => if plan.flatten {
            Action::Finish(Outcome::Failed(Failure::Propagated))
        } else {
            Action::Finish(missing_outcome(plan.optional, plan.default_on_missing))
        },
        Event::Failed => Action::Finish(Outcome::Failed(Failure::Propagated)),
    }
}

/// How a field ends after its conversion: a failed conversion is never replaced by a
/// default or an absent value.
pub open spec fn outcome_after_conversion(plan: FieldPlanModel, converted: bool) -> Outcome {
    if converted {
        obtained_outcome(plan.flatten, plan.optional)
    } else {
        Outcome::Failed(Failure::ConversionFailed)
    }
}

impl FieldPlan {
    /// The first action for this field on a row with the given column names: a
    /// flattened field builds its nested record; a scalar field fetches its first
    /// existing candidate, and ends at once where none exists.
    pub fn begin(&self, columns: &Vec<String>) -> (r: Action)
        ensures
            self@.flatten ==> r == Action::Nested,
            !self@.flatten ==> match r {
                Action::Fetch { candidate } => candidate < self@.candidates.len() && texts(
                    columns@,
                ).contains(self@.candidates[candidate as int]) && forall|k: int|
                    0 <= k < candidate ==> !texts(columns@).contains(
                        #[trigger] self@.candidates[k],
                    ),
                Action::Finish(outcome) => outcome == missing_outcome(
                    self@.optional,
                    self@.default_on_missing,
                ) && forall|k: int|
                    0 <= k < self@.candidates.len() ==> !texts(columns@).contains(
                        #[trigger] self@.candidates[k],
                    ),
                _ => false,
            },
    {
        if self.flatten {
            return Action::Nested;
        }
        assert(forall|k: int|
            0 <= k < self.candidates@.len() ==> self.candidates@[k]@
                == #[trigger] self@.candidates[k]);
        match find_column(&self.candidates, columns) {
            Some(i) => Action::Fetch { candidate: i },
            None => Action::Finish(missing(self.optional, self.default_on_missing)),
        }
    }

    /// The action after the fetch, or the nested record, reported `event`.
    pub fn after_fetch(&self, event: Event) -> (r: Action)
        ensures
            r == action_after(self@, event),
    {
        match event {
            Event::Value => if self.intermediate.is_some() {
                Action::Convert
            } else {
                Action::Finish(obtained(self.flatten, self.optional))
            },
            Event::NotFound => if self.flatten {
                Action::Finish(Outcome::Failed(Failure::Propagated))
            } else {
                Action::Finish(missing(self.optional, self.default_on_missing))
            },
            Event::Failed => Action::Finish(Outcome::Failed(Failure::Propagated)),
        }
    }

    /// How the field ends after its conversion succeeded or failed.
    pub fn after_conversion(&self, converted: bool) -> (r: Outcome)
        ensures
            r == outcome_after_conversion(self@, converted),
    {
        if converted {
            obtained(self.flatten, self.optional)
        } else {
            Outcome::Failed(Failure::ConversionFailed)
        }
    }
}

fn missing(optional: bool, default_on_missing: bool) -> (r: Outcome)
    ensures
        r == missing_outcome(optional, default_on_missing),
{
    if optional {
        Outcome::Absent
    } else if default_on_missing {
        Outcome::Default
    } else {
        Outcome::Failed(Failure::ColumnNotFound)
    }
}

fn obtained(flatten: bool, optional: bool) -> (r: Outcome)
    ensures
        r == obtained_outcome(flatten, optional),
{
    if !flatten && optional {
        Outcome::Present
    } else {
        Outcome::Value
    }
}

/// The index of the first field that failed, with its failure; `None` where every
/// field has a value.
pub open spec fn first_failure(outcomes: Seq<Outcome>, from: int) -> Option<(usize, Failure)>
    decreases outcomes.len() - from,
{
    if from < 0 || from >= outcomes.len() {
        None
    } else {
        match outcomes[from] {
            Outcome::Failed(f) => Some((from as usize, f)),
            _ => first_failure(outcomes, from + 1),
        }
    }
}

/// Decides whether a record is built from the outcomes of its fields, in declared
/// order: it is built only where no field failed, and fails with the first failure else.
pub fn assemble_record(outcomes: &Vec<Outcome>) -> (r: Result<(), (usize, Failure)>)
    ensures
        match first_failure(outcomes@, 0) {
            None => r.is_ok(),
            Some(f) => r == Err::<(), (usize, Failure)>(f),
        },
        r.is_ok() <==> forall|k: int|
            0 <= k < outcomes.len() ==> !(#[trigger] outcomes@[k] is Failed),
{
    let mut i: usize = 0;
    while i < outcomes.len()
        invariant
            i <= outcomes.len(),
            first_failure(outcomes@, 0) == first_failure(outcomes@, i as int),
            forall|k: int| 0 <= k < i ==> !(#[trigger] outcomes@[k] is Failed),
        decreases outcomes.len() - i,
    {
        match outcomes[i] {
            Outcome::Failed(f) => {
                assert(outcomes@[i as int] is Failed);
                return Err((i, f));
            },
            _ => {},
        }
        i = i + 1;
    }
    Ok(())
}

/// One declared field of a record type.
#[derive(Debug, Clone)]
pub struct Field {
    pub ident: Option<String>,
    pub attrs: Vec<Attribute>,
    pub ty: FieldType,
}

/// What a record type is declared as.
#[derive(Debug, Clone)]
pub enum RecordData {
    /// A structure with named fields.
    Named(Vec<Field>),
    /// Anything else.
    Other,
}

/// A declared record type: its name, the directive blocks on it, and its fields.
#[derive(Debug, Clone)]
pub struct RecordInput {
    pub ident: String,
    pub attrs: Vec<Attribute>,
    pub data: RecordData,
}

/// Why no plan could be made for a record type.
#[derive(Debug, Clone, PartialEq, Eq)]
pub enum PlanError {
    /// The type is no structure with named fields.
    UnsupportedStructure,
    /// A fault in the directives of the type.
    Container(ConfigError),
    /// A fault in the directives of the field at this index.
    Field { index: usize, cause: ConfigError },
}

/// Why no plan could be made, as the contracts speak of it.
pub enum PlanFault {
    UnsupportedStructure,
    Container(ConfigFault),
    Field { index: usize, cause: ConfigFault },
}

impl PlanError {
    /// Whether this error is the given fault: of the same kind, for the same field,
    /// and reporting the same fault in the directives.
    pub open spec fn reports(&self, fault: PlanFault) -> bool {
        match (*self, fault) {
            (PlanError::UnsupportedStructure, PlanFault::UnsupportedStructure) => true,
            (PlanError::Container(e), PlanFault::Container(f)) => e.reports(f),
            (PlanError::Field { index, cause }, PlanFault::Field { index: at, cause: f }) => index
                == at && cause.reports(f),
            _ => false,
        }
    }
}

/// The plan of a record type: one plan for each named field, in declared order.
#[derive(Debug, Clone)]
pub struct RecordPlan {
    pub ident: String,
    pub fields: Vec<FieldPlan>,
}

pub struct RecordPlanModel {
    pub ident: Seq<char>,
    pub fields: Seq<FieldPlanModel>,
}

pub open spec fn plans(v: Seq<FieldPlan>) -> Seq<FieldPlanModel> {
    Seq::new(v.len(), |i: int| v[i]@)
}

impl View for RecordPlan {
    type V = RecordPlanModel;

    open spec fn view(&self) -> RecordPlanModel {
        RecordPlanModel { ident: self.ident@, fields: plans(self.fields@) }
    }
}

/// The plans of the fields from `from` on, after those in `done`: a field without a
/// name is passed over, and the first fault in a field's directives ends the planning.
pub open spec fn planned_fields(
    container: ContainerModel,
    fields: Seq<Field>,
    from: int,
    done: Seq<FieldPlanModel>,
) -> Result<Seq<FieldPlanModel>, PlanFault>
    decreases fields.len() - from,
{
    if from < 0 || from >= fields.len() {
        Ok(done)
    } else {
        match fields[from].ident {
            None => planned_fields(container, fields, from + 1, done),
            Some(name) => match parsed_child(fields[from].attrs@) {
                Err(e) => Err(PlanFault::Field { index: from as usize, cause: e }),
                Ok(child) => planned_fields(
                    container,
                    fields,
                    from + 1,
                    done.push(planned_field(name@, is_option(fields[from].ty), container, child)),
                ),
            },
        }
    }
}

/// The plan of a record type, or why there is none.
pub open spec fn planned_record(input: RecordInput) -> Result<RecordPlanModel, PlanFault> {
    match input.data {
        RecordData::Other => Err(PlanFault::UnsupportedStructure),
        RecordData::Named(fields) => match parsed_container(input.attrs@) {
            Err(e) => Err(PlanFault::Container(e)),
            Ok(container) => match planned_fields(container, fields@, 0, Seq::empty()) {
                Err(e) => Err(e),
                Ok(plans) => Ok(RecordPlanModel { ident: input.ident@, fields: plans }),
            },
        },
    }
}

pub open spec fn is_record_result(
    r: Result<RecordPlan, PlanError>,
    expected: Result<RecordPlanModel, PlanFault>,
) -> bool {
    match expected {
        Ok(m) => r matches Ok(p) && p@ == m,
        Err(e) => r matches Err(x) && x.reports(e),
    }
}

/// Plans a record type from its directives and those of its fields. Only a structure
/// with named fields has a plan.
pub fn expand_derive_from_mapping_row(input: &RecordInput) -> (r: Result<RecordPlan, PlanError>)
    ensures
        is_record_result(r, planned_record(*input)),
{
    match &input.data {
        RecordData::Named(fields) => expand_derive_from_mapping_row_struct(input, fields),
        RecordData::Other => Err(PlanError::UnsupportedStructure),
    }
}

/// Plans the named fields of a record type in declared order.
pub fn expand_derive_from_mapping_row_struct(input: &RecordInput, fields: &Vec<Field>) -> (r:
    Result<RecordPlan, PlanError>)
    ensures
        match parsed_container(input.attrs@) {
            Err(e) => r matches Err(x) && x.reports(PlanFault::Container(e)),
            Ok(container) => match planned_fields(container, fields@, 0, Seq::empty()) {
                Err(e) => r matches Err(x) && x.reports(e),
                Ok(plans) => r matches Ok(p) && p@ == (RecordPlanModel {
                    ident: input.ident@,
                    fields: plans,
                }),
            },
        },
{
    let container = match parse_container_attributes(input.attrs.as_slice()) {
        Ok(c) => c,
        Err(e) => {
            return Err(PlanError::Container(e));
        },
    };
    let mut out: Vec<FieldPlan> = Vec::new();
    let mut i: usize = 0;
    assert(plans(out@) =~= Seq::<FieldPlanModel>::empty());
    while i < fields.len()
        invariant
            i <= fields.len(),
            parsed_container(input.attrs@) == Ok::<ContainerModel, ConfigFault>(container@),
            planned_fields(container@, fields@, 0, Seq::empty()) == planned_fields(
                container@,
                fields@,
                i as int,
                plans(out@),
            ),
        decreases fields.len() - i,
    {
        let field = &fields[i];
        match &field.ident {
            None => {},
            Some(name) => {
                let child = match parse_child_attributes(field.attrs.as_slice()) {
                    Ok(c) => c,
                    Err(e) => {
                        return Err(PlanError::Field { index: i, cause: e });
                    },
                };
                let plan = plan_field(name.as_str(), is_path_option(&field.ty), &container, &child);
                let ghost before = out@;
                out.push(plan);
                assert(plans(out@) =~= plans(before).push(plan@));
            },
        }
        i = i + 1;
    }
    Ok(RecordPlan { ident: input.ident.clone(), fields: out })
}

proof fn lemma_prefixed_count(
    prefixes: Seq<Seq<char>>,
    separators: Seq<Seq<char>>,
    base: Seq<char>,
    n: int,
)
    requires
        0 <= n,
    ensures
        prefixed_candidates(prefixes, separators, base, n).len() == n * separators.len(),
    decreases n,
{
    if n > 0 {
        lemma_prefixed_count(prefixes, separators, base, n - 1);
        assert((n - 1) * separators.len() + separators.len() == n * separators.len())
            by (nonlinear_arith);
        assert(prefixed_with(prefixes[n - 1], separators, base).len() == separators.len());
    } else {
        assert(n * separators.len() == 0) by (nonlinear_arith)
            requires
                n == 0,
        ;
    }
}

/// A field is probed under every prefix joined by every separator, and under its base
/// name: the candidates are one more than prefixes times separators, and the base name
/// is the last of them.
pub proof fn lemma_candidate_count(
    prefixes: Seq<Seq<char>>,
    separators: Seq<Seq<char>>,
    base: Seq<char>,
)
    ensures
        candidate_columns(prefixes, separators, base).len() == prefixes.len() * separators.len()
            + 1,
        candidate_columns(prefixes, separators, base).last() == base,
{
    lemma_prefixed_count(prefixes, separators, base, prefixes.len() as int);
}

/// The candidate that the prefix at `p` and the separator at `s` give stands at
/// `p * |separators| + s`, so the candidates run prefix by prefix, and separator by
/// separator under each prefix.
pub proof fn lemma_candidate_at(
    prefixes: Seq<Seq<char>>,
    separators: Seq<Seq<char>>,
    base: Seq<char>,
    p: int,
    s: int,
)
    requires
        0 <= p < prefixes.len(),
        0 <= s < separators.len(),
    ensures
        0 <= p * separators.len() + s < prefixes.len() * separators.len(),
        candidate_columns(prefixes, separators, base)[p * separators.len() + s] == prefixes[p]
            + separators[s] + base,
{
    lemma_candidate_in(prefixes, separators, base, prefixes.len() as int, p, s);
    assert(p * separators.len() + s < prefixes.len() * separators.len()) by (nonlinear_arith)
        requires
            0 <= p < prefixes.len(),
            0 <= s < separators.len(),
    ;
    assert(0 <= p * separators.len()) by (nonlinear_arith)
        requires
            0 <= p,
            0 <= separators.len(),
    ;
    lemma_prefixed_count(prefixes, separators, base, prefixes.len() as int);
}

proof fn lemma_candidate_in(
    prefixes: Seq<Seq<char>>,
    separators: Seq<Seq<char>>,
    base: Seq<char>,
    n: int,
    p: int,
    s: int,
)
    requires
        0 <= p < n,
        0 <= s < separators.len(),
    ensures
        0 <= p * separators.len() + s < prefixed_candidates(prefixes, separators, base, n).len(),
        prefixed_candidates(prefixes, separators, base, n)[p * separators.len() + s] == prefixes[p]
            + separators[s] + base,
    decreases n,
{
    lemma_prefixed_count(prefixes, separators, base, n);
    lemma_prefixed_count(prefixes, separators, base, n - 1);
    assert(0 <= p * separators.len()) by (nonlinear_arith)
        requires
            0 <= p,
            0 <= separators.len(),
    ;
    assert((n - 1) * separators.len() + separators.len() == n * separators.len())
        by (nonlinear_arith);
    if p == n - 1 {
    } else {
        lemma_candidate_in(prefixes, separators, base, n - 1, p, s);
    }
}

/// Without an alias and without a naming convention a field is looked up under its
/// own name, as long as that name carries no raw-identifier mark.
pub proof fn lemma_plain_field_keeps_its_name(
    field: Seq<char>,
    prefixes: Seq<Seq<char>>,
    separators: Seq<Seq<char>>,
)
    requires
        !(field.len() >= 2 && field[0] == 'r' && field[1] == '#'),
    ensures
        base_name(field, None, None) == field,
        candidate_columns(prefixes, separators, base_name(field, None, None)).last() == field,
{
}

/// A required field without a column fails unless it has a default, which it then
/// takes; an optional field without a column is absent, with or without a default.
pub proof fn lemma_missing_column(optional: bool, default_on_missing: bool)
    ensures
        optional ==> missing_outcome(optional, default_on_missing) == Outcome::Absent,
        !optional && default_on_missing ==> missing_outcome(optional, default_on_missing)
            == Outcome::Default,
        !optional && !default_on_missing ==> missing_outcome(optional, default_on_missing)
            == Outcome::Failed(Failure::ColumnNotFound),
{
}

/// A failed conversion fails the field whatever else the plan says, and an error of a
/// nested record is passed on whatever else the plan says.
pub proof fn lemma_failures_are_not_masked(plan: FieldPlanModel, event: Event)
    ensures
        outcome_after_conversion(plan, false) == Outcome::Failed(Failure::ConversionFailed),
        plan.flatten && event != Event::Value ==> action_after(plan, event) == Action::Finish(
            Outcome::Failed(Failure::Propagated),
        ),
        action_after(plan, Event::Failed) == Action::Finish(Outcome::Failed(Failure::Propagated)),
{
}

/// A record with a failed field is not built, and fails as its first failed field did.
pub proof fn lemma_first_failure_aborts(outcomes: Seq<Outcome>, k: int)
    requires
        0 <= k < outcomes.len(),
        outcomes[k] is Failed,
        forall|j: int| 0 <= j < k ==> !(#[trigger] outcomes[j] is Failed),
    ensures
        first_failure(outcomes, 0) == Some((k as usize, outcomes[k]->Failed_0)),
{
    lemma_first_failure_from(outcomes, 0, k);
}

proof fn lemma_first_failure_from(outcomes: Seq<Outcome>, from: int, k: int)
    requires
        0 <= from <= k < outcomes.len(),
        outcomes[k] is Failed,
        forall|j: int| 0 <= j < k ==> !(#[trigger] outcomes[j] is Failed),
    ensures
        first_failure(outcomes, from) == Some((k as usize, outcomes[k]->Failed_0)),
    decreases k - from,
{
    if from < k {
        assert(!(outcomes[from] is Failed));
        lemma_first_failure_from(outcomes, from + 1, k);
    }
}

} // verus!

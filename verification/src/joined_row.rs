//! Records whose every field is itself a full record built from the same row.

use crate::row::{Field, FieldPlan, FieldPlanModel, PlanError, PlanFault, RecordData, RecordInput, RecordPlan,
    RecordPlanModel, plans};
use crate::types::texts;
use vstd::prelude::*;

verus! {

/// The plan of a field of a joined record: its nested record, taken as it is, with no
/// column resolved for it.
pub open spec fn joined_field(name: Seq<char>) -> FieldPlanModel {
    FieldPlanModel {
        name,
        flatten: true,
        intermediate: None,
        candidates: Seq::empty(),
        optional: false,
        default_on_missing: false,
    }
}

/// The plans of the first `n` fields of a joined record, in declared order; a field
/// without a name has none.
pub open spec fn joined_fields(fields: Seq<Field>, n: int) -> Seq<FieldPlanModel>
    decreases n,
{
    if n <= 0 {
        Seq::empty()
    } else {
        let rest = joined_fields(fields, n - 1);
        match fields[n - 1].ident {
            Some(name) => rest.push(joined_field(name@)),
            None => rest,
        }
    }
}

/// The plan of a joined record type, or why there is none.
pub open spec fn joined_record(input: RecordInput) -> Result<RecordPlanModel, PlanFault> {
    match input.data {
        RecordData::Other => Err(PlanFault::UnsupportedStructure),
        RecordData::Named(fields) => Ok(
            RecordPlanModel {
                ident: input.ident@,
                fields: joined_fields(fields@, fields@.len() as int),
            },
        ),
    }
}

/// Plans a joined record type: every named field is a nested record of its own. Only
/// a structure with named fields has a plan; the directives on it are not read.
pub fn expand_derive_from_joined_mapping_row(input: &RecordInput) -> (r: Result<
    RecordPlan,
    PlanError,
>)
    ensures
        crate::row::is_record_result(r, joined_record(*input)),
{
    match &input.data {
        RecordData::Named(fields) => Ok(expand_derive_from_mapping_row_struct(input, fields)),
        RecordData::Other => Err(PlanError::UnsupportedStructure),
    }
}

fn expand_derive_from_mapping_row_struct(input: &RecordInput, fields: &Vec<Field>) -> (r:
    RecordPlan)
    ensures
        r@ == (RecordPlanModel {
            ident: input.ident@,
            fields: joined_fields(fields@, fields@.len() as int),
        }),
{
    let mut out: Vec<FieldPlan> = Vec::new();
    let mut i: usize = 0;
    assert(plans(out@) =~= joined_fields(fields@, 0));
    while i < fields.len()
        invariant
            i <= fields.len(),
            plans(out@) == joined_fields(fields@, i as int),
        decreases fields.len() - i,
    {
        match &fields[i].ident {
            None => {},
            Some(name) => {
                let none: Vec<String> = Vec::new();
                assert(texts(none@) =~= Seq::<Seq<char>>::empty());
                let plan = FieldPlan {
                    name: name.clone(),
                    flatten: true,
                    intermediate: None,
                    candidates: none,
                    optional: false,
                    default_on_missing: false,
                };
                let ghost before = out@;
                out.push(plan);
                assert(plans(out@) =~= plans(before).push(plan@));
            },
        }
        i = i + 1;
    }
    RecordPlan { ident: input.ident.clone(), fields: out }
}

/// A record type that is nested in itself, and where it was entered first.
#[derive(Debug, Clone, Copy, PartialEq, Eq, Structural)]
pub struct CyclicFlatten {
    pub entered_at: usize,
}

/// Enters the nested record type `name` while the record types in `active` are being
/// built, outermost first. A type that is already being built is refused, so that no
/// record is nested in itself without end; else the type is added as the innermost.
pub fn enter_nested(active: Vec<String>, name: &str) -> (r: Result<Vec<String>, CyclicFlatten>)
    ensures
        match r {
            Ok(entered) => !texts(active@).contains(name@) && texts(entered@) == texts(
                active@,
            ).push(name@),
            Err(cycle) => cycle.entered_at < active@.len() && active@[cycle.entered_at as int]@
                == name@ && forall|k: int|
                0 <= k < cycle.entered_at ==> active@[k]@ != name@,
        },
{
    let mut k: usize = 0;
    while k < active.len()
        invariant
            k <= active.len(),
            forall|x: int| 0 <= x < k ==> texts(active@)[x] != name@,
        decreases active.len() - k,
    {
        if crate::types::same_text(active[k].as_str(), name) {
            assert forall|x: int| 0 <= x < k implies active@[x]@ != name@ by {
                assert(texts(active@)[x] != name@);
            }
            return Err(CyclicFlatten { entered_at: k });
        }
        k = k + 1;
    }
    let mut entered = active;
    entered.push(String::from_str(name));
    assert(texts(entered@) =~= texts(active@).push(name@));
    Ok(entered)
}

} // verus!

//! Programs: the procedures that a service offers, by version.

use crate::idl::constant::{Value, ValueModel};
use crate::idl::datatype::{DataType, DataTypeModel, DiscriminantType};
use crate::idl::names::with_suffix;
use crate::idl::specification::{
    resolved_type, ResolvedModel, ResolvedType, Specification, SpecificationModel,
};
use vstd::prelude::*;

verus! {

/// How the reply of a procedure is written into the caller's buffers.
#[derive(Clone, Copy, Debug, PartialEq, Eq, Structural)]
pub enum RawCallType {
    UnionI32,
    Struct,
}

/// One procedure of a program.
#[derive(Debug, PartialEq)]
pub struct Procedure {
    pub name: String,
    pub return_type: DataType,
    pub args: Vec<DataType>,
    pub num: Value,
    pub slice_call_target_type: Option<RawCallType>,
}

/// A procedure, as contracts speak of it.
pub ghost struct ProcedureModel {
    pub name: Seq<char>,
    pub return_type: DataTypeModel,
    pub args: Seq<DataTypeModel>,
    pub num: ValueModel,
    pub slice_call_target_type: Option<RawCallType>,
}

/// One version of a program with its procedures.
#[derive(Debug)]
pub struct Version {
    pub version_number: u32,
    pub procedures: Vec<Procedure>,
}

/// A program with its versions.
#[derive(Debug)]
pub struct Program {
    pub program_number: u32,
    pub versions: Vec<Version>,
}

impl View for Procedure {
    type V = ProcedureModel;

    open spec fn view(&self) -> ProcedureModel {
        ProcedureModel {
            name: self.name@,
            return_type: self.return_type.view(),
            args: Seq::new(self.args@.len(), |i: int| self.args@[i].view()),
            num: self.num@,
            slice_call_target_type: self.slice_call_target_type,
        }
    }
}

/// The procedures, as contracts speak of them.
pub open spec fn procedure_models(procedures: Seq<Procedure>) -> Seq<ProcedureModel> {
    Seq::new(procedures.len(), |i: int| procedures[i]@)
}

/// Whether the reply of `procedure` can be written in place: it returns, by
/// name, a union that holds a variable-length array and is selected by a
/// signed integer.
pub open spec fn returns_raw_union(procedure: ProcedureModel, spec: SpecificationModel) -> bool {
    match procedure.return_type {
        DataTypeModel::TypeDef { name } => match resolved_type(spec, name) {
            ResolvedModel::Union(def) => def.contains_vararray && def.body.discriminant is Int,
            _ => false,
        },
        _ => false,
    }
}

/// The variant of `procedure` that writes its reply in place: its name ends
/// in `_raw`, and it returns nothing itself.
pub open spec fn raw_variant(procedure: ProcedureModel) -> ProcedureModel {
    ProcedureModel {
        name: procedure.name + "_raw"@,
        return_type: DataTypeModel::Void,
        slice_call_target_type: Some(RawCallType::UnionI32),
        ..procedure
    }
}

/// The raw variants of those of `procedures` that have one, in order.
pub open spec fn raw_variants(procedures: Seq<ProcedureModel>, spec: SpecificationModel) -> Seq<
    ProcedureModel,
>
    decreases procedures.len(),
{
    if procedures.len() == 0 {
        Seq::empty()
    } else if returns_raw_union(procedures.last(), spec) {
        raw_variants(procedures.drop_last(), spec).push(raw_variant(procedures.last()))
    } else {
        raw_variants(procedures.drop_last(), spec)
    }
}

impl Procedure {
    /// The variant of this procedure that writes its reply in place.
    pub fn raw_copy(&self) -> (raw: Self)
        ensures
            raw@ == raw_variant(self@),
    {
        let mut args: Vec<DataType> = Vec::new();
        let mut i: usize = 0;
        while i < self.args.len()
            invariant
                i <= self.args@.len(),
                args@.len() == i,
                forall|j: int| 0 <= j < i ==> (#[trigger] args@[j]).view() == self.args@[j].view(),
            decreases self.args@.len() - i,
        {
            args.push(self.args[i].clone());
            i += 1;
        }
        let raw = Procedure {
            name: with_suffix(&self.name, "_raw"),
            return_type: DataType::Void,
            args,
            num: self.num.clone(),
            slice_call_target_type: Some(RawCallType::UnionI32),
        };
        assert(raw@.args =~= self@.args);
        raw
    }

    /// Whether the reply of this procedure can be written in place.
    pub fn returns_raw_union(&self, spec: &Specification) -> (yes: bool)
        ensures
            yes == returns_raw_union(self@, spec@),
    {
        match &self.return_type {
            DataType::TypeDef { name } => match spec.get_type_specification(name.as_str()) {
                Some(ResolvedType::Union(def)) => {
                    def.contains_vararray && match &def.union_body.discriminant {
                        DiscriminantType::Int => true,
                        _ => false,
                    }
                },
                _ => false,
            },
            _ => false,
        }
    }
}

impl Version {
    /// The procedures of this version, as contracts speak of them.
    pub open spec fn spec_procedures(&self) -> Seq<ProcedureModel> {
        procedure_models(self.procedures@)
    }

    /// Adds, behind the procedures, the raw variant of every procedure whose
    /// reply can be written in place.
    pub fn create_sliced_variants(&mut self, spec: &Specification)
        ensures
            final(self).version_number == old(self).version_number,
            final(self).spec_procedures() == old(self).spec_procedures() + raw_variants(
                old(self).spec_procedures(),
                spec@,
            ),
    {
        let ghost models = procedure_models(self.procedures@);
        let mut sliced_procedures: Vec<Procedure> = Vec::new();
        let mut i: usize = 0;
        proof {
            assert(procedure_models(sliced_procedures@) =~= raw_variants(models.take(0), spec@));
        }
        while i < self.procedures.len()
            invariant
                i <= self.procedures@.len(),
                *self == *old(self),
                models == procedure_models(self.procedures@),
                procedure_models(sliced_procedures@) == raw_variants(models.take(i as int), spec@),
            decreases self.procedures@.len() - i,
        {
            let ghost after = models.take(i + 1);
            let ghost before = procedure_models(sliced_procedures@);
            proof {
                assert(after.drop_last() =~= models.take(i as int));
                assert(after.last() == self.procedures@[i as int]@);
            }
            if self.procedures[i].returns_raw_union(spec) {
                sliced_procedures.push(self.procedures[i].raw_copy());
                proof {
                    assert(procedure_models(sliced_procedures@) =~= before.push(
                        raw_variant(after.last()),
                    ));
                }
            }
            i += 1;
        }
        proof {
            assert(models.take(i as int) =~= models);
        }
        self.procedures.append(&mut sliced_procedures);
        proof {
            assert(procedure_models(self.procedures@) =~= models + raw_variants(models, spec@));
        }
    }
}

} // verus!

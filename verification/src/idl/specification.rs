//! A specification: all the definitions of one `.x` file.

use crate::idl::constant::{ConstantDeclaration, ConstantModel};
use crate::idl::definition::{
    marked_structdef, marked_uniondef, sliced_structdef, sliced_typedef, sliced_uniondef, Enumdef,
    EnumdefModel, Structdef, StructdefModel, Typedef, TypedefModel, Uniondef, UniondefModel,
};
use crate::idl::names::{str_eq, NameSet};
use vstd::prelude::*;

verus! {

/// What a name stands for in a specification.
#[derive(Debug)]
pub enum ResolvedType<'a> {
    Struct(&'a Structdef),
    Union(&'a Uniondef),
    Enum(&'a Enumdef),
}

/// What a name stands for, as contracts speak of it.
pub ghost enum ResolvedModel {
    Struct(StructdefModel),
    Union(UniondefModel),
    Enum(EnumdefModel),
    Unknown,
}

/// The definitions of one file.
#[derive(Debug)]
pub struct Specification {
    typedefs: Vec<Typedef>,
    enums: Vec<Enumdef>,
    structs: Vec<Structdef>,
    unions: Vec<Uniondef>,
    constants: Vec<ConstantDeclaration>,
    pub union_typedefs_with_vararray: NameSet,
}

/// The definitions of one file, as contracts speak of them.
pub ghost struct SpecificationModel {
    pub typedefs: Seq<TypedefModel>,
    pub enums: Seq<EnumdefModel>,
    pub structs: Seq<StructdefModel>,
    pub unions: Seq<UniondefModel>,
    pub constants: Seq<ConstantModel>,
    pub union_typedefs_with_vararray: Set<Seq<char>>,
}

/// The type definitions, as contracts speak of them.
pub open spec fn typedef_models(defs: Seq<Typedef>) -> Seq<TypedefModel> {
    Seq::new(defs.len(), |i: int| defs[i]@)
}

/// The enums, as contracts speak of them.
pub open spec fn enum_models(defs: Seq<Enumdef>) -> Seq<EnumdefModel> {
    Seq::new(defs.len(), |i: int| defs[i]@)
}

/// The structs, as contracts speak of them.
pub open spec fn struct_models(defs: Seq<Structdef>) -> Seq<StructdefModel> {
    Seq::new(defs.len(), |i: int| defs[i]@)
}

/// The unions, as contracts speak of them.
pub open spec fn union_models(defs: Seq<Uniondef>) -> Seq<UniondefModel> {
    Seq::new(defs.len(), |i: int| defs[i]@)
}

/// The constants, as contracts speak of them.
pub open spec fn constant_models(defs: Seq<ConstantDeclaration>) -> Seq<ConstantModel> {
    Seq::new(defs.len(), |i: int| defs[i]@)
}

/// The names of the type definitions that are variable-length arrays.
pub open spec fn vararray_names(typedefs: Seq<TypedefModel>) -> Set<Seq<char>> {
    Set::new(
        |name: Seq<char>|
            exists|i: int|
                0 <= i < typedefs.len() && (#[trigger] typedefs[i]).decl_type is VarlenArray
                    && typedefs[i].name == name,
    )
}

/// The sliced forms of the type definitions that are variable-length
/// arrays, in order.
pub open spec fn sliced_typedefs(typedefs: Seq<TypedefModel>) -> Seq<TypedefModel>
    decreases typedefs.len(),
{
    if typedefs.len() == 0 {
        Seq::empty()
    } else if typedefs.last().decl_type is VarlenArray {
        sliced_typedefs(typedefs.drop_last()).push(sliced_typedef(typedefs.last()))
    } else {
        sliced_typedefs(typedefs.drop_last())
    }
}

/// The structs with their marks set.
pub open spec fn marked_structs(structs: Seq<StructdefModel>, vararrays: Set<Seq<char>>) -> Seq<
    StructdefModel,
> {
    Seq::new(structs.len(), |i: int| marked_structdef(structs[i], vararrays))
}

/// The sliced forms of the structs that are marked, in order.
pub open spec fn sliced_structs(structs: Seq<StructdefModel>, vararrays: Set<Seq<char>>) -> Seq<
    StructdefModel,
>
    decreases structs.len(),
{
    if structs.len() == 0 {
        Seq::empty()
    } else if structs.last().contains_vararray {
        sliced_structs(structs.drop_last(), vararrays).push(
            sliced_structdef(structs.last(), vararrays),
        )
    } else {
        sliced_structs(structs.drop_last(), vararrays)
    }
}

/// The unions with their marks set.
pub open spec fn marked_unions(unions: Seq<UniondefModel>, vararrays: Set<Seq<char>>) -> Seq<
    UniondefModel,
> {
    Seq::new(unions.len(), |i: int| marked_uniondef(unions[i], vararrays))
}

/// The sliced forms of the unions that are marked, in order.
pub open spec fn sliced_unions(unions: Seq<UniondefModel>, vararrays: Set<Seq<char>>) -> Seq<
    UniondefModel,
>
    decreases unions.len(),
{
    if unions.len() == 0 {
        Seq::empty()
    } else if unions.last().contains_vararray {
        sliced_unions(unions.drop_last(), vararrays).push(
            sliced_uniondef(unions.last(), vararrays),
        )
    } else {
        sliced_unions(unions.drop_last(), vararrays)
    }
}

/// The names of the unions that are marked.
pub open spec fn marked_union_names(unions: Seq<UniondefModel>) -> Set<Seq<char>> {
    Set::new(
        |name: Seq<char>|
            exists|i: int|
                0 <= i < unions.len() && (#[trigger] unions[i]).contains_vararray
                    && unions[i].name == name,
    )
}

/// The specification after the variable-length arrays have been looked for:
/// every struct and union carries its mark, and behind the definitions stand
/// the sliced forms of the type definitions that are variable-length arrays
/// and of the structs and unions that hold one. The names of those unions
/// are noted.
pub open spec fn with_sliced_variants(spec: SpecificationModel) -> SpecificationModel {
    let vararrays = vararray_names(spec.typedefs);
    let structs = marked_structs(spec.structs, vararrays);
    let unions = marked_unions(spec.unions, vararrays);
    SpecificationModel {
        typedefs: spec.typedefs + sliced_typedefs(spec.typedefs),
        structs: structs + sliced_structs(structs, vararrays),
        unions: unions + sliced_unions(unions, vararrays),
        union_typedefs_with_vararray: spec.union_typedefs_with_vararray.union(
            marked_union_names(unions),
        ),
        ..spec
    }
}

/// The first struct of that name, if there is one.
pub open spec fn first_struct(structs: Seq<StructdefModel>, name: Seq<char>) -> Option<
    StructdefModel,
>
    decreases structs.len(),
{
    if structs.len() == 0 {
        None
    } else if structs.first().name == name {
        Some(structs.first())
    } else {
        first_struct(structs.drop_first(), name)
    }
}

/// The first union of that name, if there is one.
pub open spec fn first_union(unions: Seq<UniondefModel>, name: Seq<char>) -> Option<UniondefModel>
    decreases unions.len(),
{
    if unions.len() == 0 {
        None
    } else if unions.first().name == name {
        Some(unions.first())
    } else {
        first_union(unions.drop_first(), name)
    }
}

/// The first enum of that name, if there is one.
pub open spec fn first_enum(enums: Seq<EnumdefModel>, name: Seq<char>) -> Option<EnumdefModel>
    decreases enums.len(),
{
    if enums.len() == 0 {
        None
    } else if enums.first().name == name {
        Some(enums.first())
    } else {
        first_enum(enums.drop_first(), name)
    }
}

/// What `name` stands for in `spec`: the first struct of that name; without
/// one, the first union; without one, the first enum.
pub open spec fn resolved_type(spec: SpecificationModel, name: Seq<char>) -> ResolvedModel {
    match first_struct(spec.structs, name) {
        Some(def) => ResolvedModel::Struct(def),
        None => match first_union(spec.unions, name) {
            Some(def) => ResolvedModel::Union(def),
            None => match first_enum(spec.enums, name) {
                Some(def) => ResolvedModel::Enum(def),
                None => ResolvedModel::Unknown,
            },
        },
    }
}

/// What a lookup found, as contracts speak of it.
pub open spec fn resolved_model(found: Option<ResolvedType<'_>>) -> ResolvedModel {
    match found {
        Some(ResolvedType::Struct(def)) => ResolvedModel::Struct(def@),
        Some(ResolvedType::Union(def)) => ResolvedModel::Union(def@),
        Some(ResolvedType::Enum(def)) => ResolvedModel::Enum(def@),
        None => ResolvedModel::Unknown,
    }
}

/// Gathers the names of the type definitions that are variable-length
/// arrays, and their sliced forms.
fn collect_vararrays(typedefs: &Vec<Typedef>) -> (r: (NameSet, Vec<Typedef>))
    ensures
        r.0@ == vararray_names(typedef_models(typedefs@)),
        typedef_models(r.1@) == sliced_typedefs(typedef_models(typedefs@)),
{
    let ghost models = typedef_models(typedefs@);
    let mut names = NameSet::new();
    let mut sliced: Vec<Typedef> = Vec::new();
    let mut i: usize = 0;
    proof {
        assert(names@ =~= vararray_names(models.take(0)));
        assert(typedef_models(sliced@) =~= sliced_typedefs(models.take(0)));
    }
    while i < typedefs.len()
        invariant
            i <= typedefs@.len(),
            models == typedef_models(typedefs@),
            names@ == vararray_names(models.take(i as int)),
            typedef_models(sliced@) == sliced_typedefs(models.take(i as int)),
        decreases typedefs@.len() - i,
    {
        let ghost before = models.take(i as int);
        let ghost after = models.take(i + 1);
        let ghost names_before = names@;
        let ghost sliced_before = typedef_models(sliced@);
        proof {
            assert(after.drop_last() =~= before);
            assert(after.last() == typedefs@[i as int]@);
        }
        if typedefs[i].is_vararray() {
            names.insert(typedefs[i].name.clone());
            sliced.push(typedefs[i].sliced_copy());
            proof {
                assert(typedef_models(sliced@) =~= sliced_before.push(
                    sliced_typedef(after.last()),
                ));
                assert forall|n: Seq<char>| vararray_names(after).contains(n)
                    == names_before.insert(after.last().name).contains(n) by {
                    if vararray_names(after).contains(n) {
                        let j = choose|j: int|
                            0 <= j < after.len() && (#[trigger] after[j]).decl_type is VarlenArray
                                && after[j].name == n;
                        if j < i {
                            assert(before[j] == after[j]);
                        }
                    }
                    if names_before.contains(n) {
                        let j = choose|j: int|
                            0 <= j < before.len() && (
                            #[trigger] before[j]).decl_type is VarlenArray && before[j].name == n;
                        assert(after[j] == before[j]);
                    }
                    if n == after.last().name {
                        assert(after[i as int] == after.last());
                    }
                }
                assert(names@ =~= vararray_names(after));
            }
        } else {
            proof {
                assert forall|n: Seq<char>| vararray_names(after).contains(n)
                    == names_before.contains(n) by {
                    if vararray_names(after).contains(n) {
                        let j = choose|j: int|
                            0 <= j < after.len() && (#[trigger] after[j]).decl_type is VarlenArray
                                && after[j].name == n;
                        assert(before[j] == after[j]);
                    }
                    if names_before.contains(n) {
                        let j = choose|j: int|
                            0 <= j < before.len() && (
                            #[trigger] before[j]).decl_type is VarlenArray && before[j].name == n;
                        assert(after[j] == before[j]);
                    }
                }
                assert(names@ =~= vararray_names(after));
            }
        }
        i += 1;
    }
    proof {
        assert(models.take(i as int) =~= models);
    }
    (names, sliced)
}

/// Sets the mark of every struct.
fn mark_structs(structs: &mut Vec<Structdef>, vararrays: &NameSet)
    ensures
        struct_models(final(structs)@) == marked_structs(struct_models(old(structs)@), vararrays@),
{
    let ghost before = struct_models(structs@);
    let mut i: usize = 0;
    while i < structs.len()
        invariant
            i <= structs@.len(),
            structs@.len() == before.len(),
            forall|j: int| 0 <= j < i ==> (#[trigger] structs@[j])@ == marked_structdef(before[j], vararrays@),
            forall|j: int| i <= j < structs@.len() ==> (#[trigger] structs@[j])@ == before[j],
        decreases structs@.len() - i,
    {
        structs[i].update_contains_vararray(vararrays);
        i += 1;
    }
    assert(struct_models(structs@) =~= marked_structs(before, vararrays@));
}

/// The sliced forms of the structs that are marked.
fn slice_structs(structs: &Vec<Structdef>, vararrays: &NameSet) -> (sliced: Vec<Structdef>)
    ensures
        struct_models(sliced@) == sliced_structs(struct_models(structs@), vararrays@),
{
    let ghost models = struct_models(structs@);
    let mut sliced: Vec<Structdef> = Vec::new();
    let mut i: usize = 0;
    proof {
        assert(struct_models(sliced@) =~= sliced_structs(models.take(0), vararrays@));
    }
    while i < structs.len()
        invariant
            i <= structs@.len(),
            models == struct_models(structs@),
            struct_models(sliced@) == sliced_structs(models.take(i as int), vararrays@),
        decreases structs@.len() - i,
    {
        let ghost after = models.take(i + 1);
        let ghost sliced_before = struct_models(sliced@);
        proof {
            assert(after.drop_last() =~= models.take(i as int));
            assert(after.last() == structs@[i as int]@);
        }
        if structs[i].contains_vararray {
            sliced.push(structs[i].sliced_copy(vararrays));
            proof {
                assert(struct_models(sliced@) =~= sliced_before.push(
                    sliced_structdef(after.last(), vararrays@),
                ));
            }
        }
        i += 1;
    }
    proof {
        assert(models.take(i as int) =~= models);
    }
    sliced
}

/// Sets the mark of every union.
fn mark_unions(unions: &mut Vec<Uniondef>, vararrays: &NameSet)
    ensures
        union_models(final(unions)@) == marked_unions(union_models(old(unions)@), vararrays@),
{
    let ghost before = union_models(unions@);
    let mut i: usize = 0;
    while i < unions.len()
        invariant
            i <= unions@.len(),
            unions@.len() == before.len(),
            forall|j: int| 0 <= j < i ==> (#[trigger] unions@[j])@ == marked_uniondef(before[j], vararrays@),
            forall|j: int| i <= j < unions@.len() ==> (#[trigger] unions@[j])@ == before[j],
        decreases unions@.len() - i,
    {
        unions[i].update_contains_vararray(vararrays);
        i += 1;
    }
    assert(union_models(unions@) =~= marked_unions(before, vararrays@));
}

/// The sliced forms of the unions that are marked; their names are put into
/// `noted`.
fn slice_unions(unions: &Vec<Uniondef>, vararrays: &NameSet, noted: &mut NameSet) -> (sliced: Vec<
    Uniondef,
>)
    ensures
        final(noted)@ == old(noted)@.union(marked_union_names(union_models(unions@))),
        union_models(sliced@) == sliced_unions(union_models(unions@), vararrays@),
{
    let ghost models = union_models(unions@);
    let mut sliced: Vec<Uniondef> = Vec::new();
    let mut i: usize = 0;
    proof {
        assert(union_models(sliced@) =~= sliced_unions(models.take(0), vararrays@));
        assert(noted@ =~= old(noted)@.union(marked_union_names(models.take(0))));
    }
    while i < unions.len()
        invariant
            i <= unions@.len(),
            models == union_models(unions@),
            noted@ == old(noted)@.union(marked_union_names(models.take(i as int))),
            union_models(sliced@) == sliced_unions(models.take(i as int), vararrays@),
        decreases unions@.len() - i,
    {
        let ghost before = models.take(i as int);
        let ghost after = models.take(i + 1);
        let ghost noted_before = noted@;
        let ghost sliced_before = union_models(sliced@);
        proof {
            assert(after.drop_last() =~= before);
            assert(after.last() == unions@[i as int]@);
        }
        if unions[i].contains_vararray {
            noted.insert(unions[i].name.clone());
            sliced.push(unions[i].sliced_copy(vararrays));
            proof {
                assert(union_models(sliced@) =~= sliced_before.push(
                    sliced_uniondef(after.last(), vararrays@),
                ));
                assert forall|n: Seq<char>| marked_union_names(after).contains(n)
                    == marked_union_names(before).insert(after.last().name).contains(n) by {
                    if marked_union_names(after).contains(n) {
                        let j = choose|j: int|
                            0 <= j < after.len() && (#[trigger] after[j]).contains_vararray
                                && after[j].name == n;
                        if j < i {
                            assert(before[j] == after[j]);
                        }
                    }
                    if marked_union_names(before).contains(n) {
                        let j = choose|j: int|
                            0 <= j < before.len() && (#[trigger] before[j]).contains_vararray
                                && before[j].name == n;
                        assert(after[j] == before[j]);
                    }
                    if n == after.last().name {
                        assert(after[i as int] == after.last());
                    }
                }
                assert(noted@ =~= old(noted)@.union(marked_union_names(after)));
            }
        } else {
            proof {
                assert forall|n: Seq<char>| marked_union_names(after).contains(n)
                    == marked_union_names(before).contains(n) by {
                    if marked_union_names(after).contains(n) {
                        let j = choose|j: int|
                            0 <= j < after.len() && (#[trigger] after[j]).contains_vararray
                                && after[j].name == n;
                        assert(before[j] == after[j]);
                    }
                    if marked_union_names(before).contains(n) {
                        let j = choose|j: int|
                            0 <= j < before.len() && (#[trigger] before[j]).contains_vararray
                                && before[j].name == n;
                        assert(after[j] == before[j]);
                    }
                }
                assert(noted@ =~= old(noted)@.union(marked_union_names(after)));
            }
        }
        i += 1;
    }
    proof {
        assert(models.take(i as int) =~= models);
    }
    sliced
}

impl Specification {
    /// Looks for the variable-length arrays and adds, for every definition
    /// that holds one, the form that borrows its elements. With those forms
    /// a reply can be read without copying it.
    pub fn update_contains_vararray(&mut self)
        ensures
            final(self)@ == with_sliced_variants(old(self)@),
    {
        let ghost before = self@;
        let (vararrays, mut sliced_typedefs) = collect_vararrays(&self.typedefs);
        self.typedefs.append(&mut sliced_typedefs);
        mark_structs(&mut self.structs, &vararrays);
        let mut sliced_structs = slice_structs(&self.structs, &vararrays);
        self.structs.append(&mut sliced_structs);
        mark_unions(&mut self.unions, &vararrays);
        let mut sliced_unions = slice_unions(
            &self.unions,
            &vararrays,
            &mut self.union_typedefs_with_vararray,
        );
        self.unions.append(&mut sliced_unions);
        proof {
            let after = with_sliced_variants(before);
            assert(self@.typedefs =~= after.typedefs);
            assert(self@.structs =~= after.structs);
            assert(self@.unions =~= after.unions);
            assert(self@.enums =~= after.enums);
            assert(self@.constants =~= after.constants);
        }
    }

    /// The specification, as contracts speak of it.
    pub closed spec fn view(&self) -> SpecificationModel {
        SpecificationModel {
            typedefs: typedef_models(self.typedefs@),
            enums: enum_models(self.enums@),
            structs: struct_models(self.structs@),
            unions: union_models(self.unions@),
            constants: constant_models(self.constants@),
            union_typedefs_with_vararray: self.union_typedefs_with_vararray@,
        }
    }

    /// A specification with these definitions and no noted names.
    pub fn new(
        typedefs: Vec<Typedef>,
        enums: Vec<Enumdef>,
        structs: Vec<Structdef>,
        unions: Vec<Uniondef>,
        constants: Vec<ConstantDeclaration>,
    ) -> (spec: Self)
        ensures
            spec@ == (SpecificationModel {
                typedefs: typedef_models(typedefs@),
                enums: enum_models(enums@),
                structs: struct_models(structs@),
                unions: union_models(unions@),
                constants: constant_models(constants@),
                union_typedefs_with_vararray: Set::empty(),
            }),
    {
        Specification {
            typedefs,
            enums,
            structs,
            unions,
            constants,
            union_typedefs_with_vararray: NameSet::new(),
        }
    }

    /// The type definitions.
    pub fn typedefs(&self) -> (defs: &[Typedef])
        ensures
            typedef_models(defs@) == self@.typedefs,
    {
        self.typedefs.as_slice()
    }

    /// The enums.
    pub fn enums(&self) -> (defs: &[Enumdef])
        ensures
            enum_models(defs@) == self@.enums,
    {
        self.enums.as_slice()
    }

    /// The structs.
    pub fn structs(&self) -> (defs: &[Structdef])
        ensures
            struct_models(defs@) == self@.structs,
    {
        self.structs.as_slice()
    }

    /// The unions.
    pub fn unions(&self) -> (defs: &[Uniondef])
        ensures
            union_models(defs@) == self@.unions,
    {
        self.unions.as_slice()
    }

    /// The constants.
    pub fn constants(&self) -> (defs: &[ConstantDeclaration])
        ensures
            constant_models(defs@) == self@.constants,
    {
        self.constants.as_slice()
    }

    /// Looks up what `name` stands for: a struct, else a union, else an enum.
    pub fn get_type_specification<'a>(&'a self, name: &str) -> (found: Option<ResolvedType<'a>>)
        ensures
            resolved_model(found) == resolved_type(self@, name@),
    {
        let ghost structs = struct_models(self.structs@);
        let mut i: usize = 0;
        proof {
            assert(structs.skip(0) =~= structs);
        }
        while i < self.structs.len()
            invariant
                i <= self.structs@.len(),
                structs == struct_models(self.structs@),
                first_struct(structs, name@) == first_struct(structs.skip(i as int), name@),
            decreases self.structs@.len() - i,
        {
            proof {
                assert(structs.skip(i as int).first() == self.structs@[i as int]@);
                assert(structs.skip(i as int).drop_first() =~= structs.skip(i + 1));
            }
            if str_eq(self.structs[i].name.as_str(), name) {
                return Some(ResolvedType::Struct(&self.structs[i]));
            }
            i += 1;
        }
        let ghost unions = union_models(self.unions@);
        let mut i: usize = 0;
        proof {
            assert(unions.skip(0) =~= unions);
        }
        while i < self.unions.len()
            invariant
                i <= self.unions@.len(),
                unions == union_models(self.unions@),
                first_struct(struct_models(self.structs@), name@) is None,
                first_union(unions, name@) == first_union(unions.skip(i as int), name@),
            decreases self.unions@.len() - i,
        {
            proof {
                assert(unions.skip(i as int).first() == self.unions@[i as int]@);
                assert(unions.skip(i as int).drop_first() =~= unions.skip(i + 1));
            }
            if str_eq(self.unions[i].name.as_str(), name) {
                return Some(ResolvedType::Union(&self.unions[i]));
            }
            i += 1;
        }
        let ghost enums = enum_models(self.enums@);
        let mut i: usize = 0;
        proof {
            assert(enums.skip(0) =~= enums);
        }
        while i < self.enums.len()
            invariant
                i <= self.enums@.len(),
                enums == enum_models(self.enums@),
                first_struct(struct_models(self.structs@), name@) is None,
                first_union(union_models(self.unions@), name@) is None,
                first_enum(enums, name@) == first_enum(enums.skip(i as int), name@),
            decreases self.enums@.len() - i,
        {
            proof {
                assert(enums.skip(i as int).first() == self.enums@[i as int]@);
                assert(enums.skip(i as int).drop_first() =~= enums.skip(i + 1));
            }
            if str_eq(self.enums[i].name.as_str(), name) {
                return Some(ResolvedType::Enum(&self.enums[i]));
            }
            i += 1;
        }
        None
    }
}

} // verus!

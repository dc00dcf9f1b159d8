//! Named definitions: structs, unions, enums and type definitions.

use crate::idl::constant::ValueModel;
use crate::idl::datatype::{
    any_contains_vararray, sliced_decls, sliced_union, union_contains_vararray, DataType,
    DataTypeModel, DeclarationModel, DeclarationType, DeclarationTypeModel, Enum, Struct, Union,
    UnionModel,
};
use crate::idl::names::{with_suffix, NameSet};
use vstd::prelude::*;

verus! {

/// The definition of a struct.
#[derive(Debug, PartialEq)]
pub struct Structdef {
    pub name: String,
    pub struct_body: Struct,
    pub contains_vararray: bool,
    pub requires_lifetime: bool,
}

/// The definition of a struct, as contracts speak of it.
pub ghost struct StructdefModel {
    pub name: Seq<char>,
    pub fields: Seq<DeclarationModel>,
    pub contains_vararray: bool,
    pub requires_lifetime: bool,
}

/// The definition of a union.
#[derive(Debug, PartialEq)]
pub struct Uniondef {
    pub name: String,
    pub union_body: Union,
    pub contains_vararray: bool,
}

/// The definition of a union, as contracts speak of it.
pub ghost struct UniondefModel {
    pub name: Seq<char>,
    pub body: UnionModel,
    pub contains_vararray: bool,
}

/// The definition of an enum.
#[derive(Debug, PartialEq)]
pub struct Enumdef {
    pub name: String,
    pub enum_body: Enum,
}

/// The definition of an enum, as contracts speak of it.
pub ghost struct EnumdefModel {
    pub name: Seq<char>,
    pub cases: Seq<(Seq<char>, ValueModel)>,
}

/// A type definition: a new name for a use of a type.
#[derive(Debug, PartialEq)]
pub struct Typedef {
    pub name: String,
    pub orig_type: DataType,
    pub decl_type: DeclarationType,
    pub needs_lifetime: bool,
}

/// A type definition, as contracts speak of it.
pub ghost struct TypedefModel {
    pub name: Seq<char>,
    pub orig_type: DataTypeModel,
    pub decl_type: DeclarationTypeModel,
    pub needs_lifetime: bool,
}

/// The definition of a struct with its mark set to whether one of its
/// fields holds a variable-length array.
pub open spec fn marked_structdef(def: StructdefModel, vararrays: Set<Seq<char>>) -> StructdefModel {
    StructdefModel { contains_vararray: any_contains_vararray(def.fields, vararrays), ..def }
}

/// The definition of a struct that borrows where `def` owns: its fields are
/// the sliced forms of the fields of `def`.
pub open spec fn sliced_structdef(def: StructdefModel, vararrays: Set<Seq<char>>) -> StructdefModel {
    StructdefModel {
        fields: sliced_decls(def.fields, vararrays),
        requires_lifetime: true,
        ..def
    }
}

/// The definition of a union with its mark set to whether one of its arms
/// holds a variable-length array.
pub open spec fn marked_uniondef(def: UniondefModel, vararrays: Set<Seq<char>>) -> UniondefModel {
    UniondefModel { contains_vararray: union_contains_vararray(def.body, vararrays), ..def }
}

/// The definition of a union that borrows where `def` owns: its arms are
/// the sliced forms of the arms of `def`.
pub open spec fn sliced_uniondef(def: UniondefModel, vararrays: Set<Seq<char>>) -> UniondefModel {
    UniondefModel { body: sliced_union(def.body, vararrays), ..def }
}

/// The type definition that borrows where `def`, a variable-length array,
/// owns: a slice under a name that ends in `_sliced`.
pub open spec fn sliced_typedef(def: TypedefModel) -> TypedefModel {
    TypedefModel {
        name: def.name + "_sliced"@,
        decl_type: DeclarationTypeModel::ArraySlice,
        needs_lifetime: true,
        ..def
    }
}

impl View for Structdef {
    type V = StructdefModel;

    open spec fn view(&self) -> StructdefModel {
        StructdefModel {
            name: self.name@,
            fields: self.struct_body.view(),
            contains_vararray: self.contains_vararray,
            requires_lifetime: self.requires_lifetime,
        }
    }
}

impl View for Uniondef {
    type V = UniondefModel;

    open spec fn view(&self) -> UniondefModel {
        UniondefModel {
            name: self.name@,
            body: self.union_body.view(),
            contains_vararray: self.contains_vararray,
        }
    }
}

impl View for Enumdef {
    type V = EnumdefModel;

    open spec fn view(&self) -> EnumdefModel {
        EnumdefModel { name: self.name@, cases: self.enum_body@ }
    }
}

impl View for Typedef {
    type V = TypedefModel;

    open spec fn view(&self) -> TypedefModel {
        TypedefModel {
            name: self.name@,
            orig_type: self.orig_type.view(),
            decl_type: self.decl_type@,
            needs_lifetime: self.needs_lifetime,
        }
    }
}

impl Clone for Structdef {
    fn clone(&self) -> (copy: Self)
        ensures
            copy@ == self@,
    {
        Structdef {
            name: self.name.clone(),
            struct_body: self.struct_body.clone(),
            contains_vararray: self.contains_vararray,
            requires_lifetime: self.requires_lifetime,
        }
    }
}

impl Clone for Uniondef {
    fn clone(&self) -> (copy: Self)
        ensures
            copy@ == self@,
    {
        Uniondef {
            name: self.name.clone(),
            union_body: self.union_body.clone(),
            contains_vararray: self.contains_vararray,
        }
    }
}

impl Clone for Enumdef {
    fn clone(&self) -> (copy: Self)
        ensures
            copy@ == self@,
    {
        Enumdef { name: self.name.clone(), enum_body: self.enum_body.clone() }
    }
}

impl Clone for Typedef {
    fn clone(&self) -> (copy: Self)
        ensures
            copy@ == self@,
    {
        Typedef {
            name: self.name.clone(),
            orig_type: self.orig_type.clone(),
            decl_type: self.decl_type.clone(),
            needs_lifetime: self.needs_lifetime,
        }
    }
}

impl Structdef {
    /// Sets the mark that says whether one of the fields holds a
    /// variable-length array, given the type definitions that are one.
    pub fn update_contains_vararray(&mut self, typedefs_with_vararray: &NameSet)
        ensures
            final(self)@ == marked_structdef(old(self)@, typedefs_with_vararray@),
    {
        self.contains_vararray = self.struct_body.contains_vararray(typedefs_with_vararray);
    }

    /// The definition of the struct that borrows where this one owns, for
    /// reading a reply without copying it.
    pub fn sliced_copy(&self, typedefs_with_lifetime: &NameSet) -> (sliced: Self)
        ensures
            sliced@ == sliced_structdef(self@, typedefs_with_lifetime@),
    {
        Structdef {
            name: self.name.clone(),
            struct_body: self.struct_body.sliced_copy(typedefs_with_lifetime),
            contains_vararray: self.contains_vararray,
            requires_lifetime: true,
        }
    }
}

impl Uniondef {
    /// Sets the mark that says whether one of the arms holds a
    /// variable-length array, given the type definitions that are one.
    pub fn update_contains_vararray(&mut self, typedefs_with_vararray: &NameSet)
        ensures
            final(self)@ == marked_uniondef(old(self)@, typedefs_with_vararray@),
    {
        self.contains_vararray = self.union_body.contains_vararray(typedefs_with_vararray);
    }

    /// The definition of the union that borrows where this one owns, for
    /// reading a reply without copying it.
    pub fn sliced_copy(&self, typedefs_with_lifetime: &NameSet) -> (sliced: Self)
        ensures
            sliced@ == sliced_uniondef(self@, typedefs_with_lifetime@),
    {
        Uniondef {
            name: self.name.clone(),
            union_body: self.union_body.sliced_copy(typedefs_with_lifetime),
            contains_vararray: self.contains_vararray,
        }
    }
}

impl Typedef {
    /// Whether this definition is a variable-length array.
    pub fn is_vararray(&self) -> (is: bool)
        ensures
            is == (self@.decl_type is VarlenArray),
    {
        match &self.decl_type {
            DeclarationType::VarlenArray => true,
            _ => false,
        }
    }

    /// The definition that borrows where this one, a variable-length array,
    /// owns.
    pub fn sliced_copy(&self) -> (sliced: Self)
        ensures
            sliced@ == sliced_typedef(self@),
    {
        Typedef {
            name: with_suffix(&self.name, "_sliced"),
            orig_type: self.orig_type.clone(),
            decl_type: DeclarationType::ArraySlice,
            needs_lifetime: true,
        }
    }
}

} // verus!

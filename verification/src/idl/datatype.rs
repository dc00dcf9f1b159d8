//! Types and declarations: what a field, an argument or a result can be.

use crate::idl::constant::{Value, ValueModel};
use crate::idl::names::{str_eq, with_suffix, NameSet};
use vstd::prelude::*;

verus! {

/// The type that a declaration names.
#[derive(Debug, PartialEq)]
#[allow(inconsistent_fields)]
pub enum DataType {
    Integer { length: u32, signed: bool },
    Float { length: u32 },
    String,
    Boolean,
    TypeDef { name: String },
    Struct { def: Struct },
    Union { def: Union },
    Enum { def: Enum },
    Void,
}

/// How a declaration uses its type.
#[derive(Debug, PartialEq)]
pub enum DeclarationType {
    Optional,
    VarlenArray,
    FixedlenArray { length: Value },
    TypeNameDecl,
    VoidDecl,
    /// A variable-length array that borrows its elements.
    ArraySlice,
}

/// A declaration: a type, a way of using it and a name.
#[derive(Debug, PartialEq)]
pub struct Declaration {
    pub decl_type: DeclarationType,
    pub data_type: DataType,
    pub name: String,
    pub needs_lifetime: bool,
}

/// The body of a struct: its fields in order.
#[derive(Debug, PartialEq)]
pub struct Struct {
    pub fields: Vec<Declaration>,
}

/// The type of the value that selects the arm of a union.
#[derive(Debug, PartialEq)]
pub enum DiscriminantType {
    Int,
    UnsignedInt,
    Boolean,
    Enum { name: String },
}

/// The body of a union: its discriminant, its arms and its default arm.
#[derive(Debug, PartialEq)]
pub struct Union {
    pub discriminant: DiscriminantType,
    pub cases: Vec<(Value, Declaration)>,
    pub default: Box<Declaration>,
}

/// The body of an enum: its cases with their values.
#[derive(Debug, PartialEq)]
pub struct Enum {
    pub cases: Vec<(String, Value)>,
}

/// A type, as contracts speak of it.
pub ghost enum DataTypeModel {
    Integer { length: u32, signed: bool },
    Float { length: u32 },
    String,
    Boolean,
    TypeDef { name: Seq<char> },
    Struct { fields: Seq<DeclarationModel> },
    Union { def: UnionModel },
    Enum { cases: Seq<(Seq<char>, ValueModel)> },
    Void,
}

/// A way of using a type, as contracts speak of it.
pub ghost enum DeclarationTypeModel {
    Optional,
    VarlenArray,
    FixedlenArray { length: ValueModel },
    TypeNameDecl,
    VoidDecl,
    ArraySlice,
}

/// A declaration, as contracts speak of it.
pub ghost struct DeclarationModel {
    pub decl_type: DeclarationTypeModel,
    pub data_type: DataTypeModel,
    pub name: Seq<char>,
    pub needs_lifetime: bool,
}

/// The type of a discriminant, as contracts speak of it.
pub ghost enum DiscriminantModel {
    Int,
    UnsignedInt,
    Boolean,
    Enum { name: Seq<char> },
}

/// The body of a union, as contracts speak of it.
pub ghost struct UnionModel {
    pub discriminant: DiscriminantModel,
    pub cases: Seq<(ValueModel, DeclarationModel)>,
    pub default: Box<DeclarationModel>,
}

impl View for DeclarationType {
    type V = DeclarationTypeModel;

    open spec fn view(&self) -> DeclarationTypeModel {
        match self {
            DeclarationType::Optional => DeclarationTypeModel::Optional,
            DeclarationType::VarlenArray => DeclarationTypeModel::VarlenArray,
            DeclarationType::FixedlenArray { length } => DeclarationTypeModel::FixedlenArray {
                length: length@,
            },
            DeclarationType::TypeNameDecl => DeclarationTypeModel::TypeNameDecl,
            DeclarationType::VoidDecl => DeclarationTypeModel::VoidDecl,
            DeclarationType::ArraySlice => DeclarationTypeModel::ArraySlice,
        }
    }
}

impl View for DiscriminantType {
    type V = DiscriminantModel;

    open spec fn view(&self) -> DiscriminantModel {
        match self {
            DiscriminantType::Int => DiscriminantModel::Int,
            DiscriminantType::UnsignedInt => DiscriminantModel::UnsignedInt,
            DiscriminantType::Boolean => DiscriminantModel::Boolean,
            DiscriminantType::Enum { name } => DiscriminantModel::Enum { name: name@ },
        }
    }
}

impl View for Enum {
    type V = Seq<(Seq<char>, ValueModel)>;

    open spec fn view(&self) -> Seq<(Seq<char>, ValueModel)> {
        Seq::new(self.cases@.len(), |i: int| (self.cases@[i].0@, self.cases@[i].1@))
    }
}

impl DataType {
    /// The type, as contracts speak of it.
    pub open spec fn view(&self) -> DataTypeModel
        decreases self,
    {
        match self {
            DataType::Integer { length, signed } => DataTypeModel::Integer {
                length: *length,
                signed: *signed,
            },
            DataType::Float { length } => DataTypeModel::Float { length: *length },
            DataType::String => DataTypeModel::String,
            DataType::Boolean => DataTypeModel::Boolean,
            DataType::TypeDef { name } => DataTypeModel::TypeDef { name: name@ },
            DataType::Struct { def } => DataTypeModel::Struct { fields: def.view() },
            DataType::Union { def } => DataTypeModel::Union { def: def.view() },
            DataType::Enum { def } => DataTypeModel::Enum { cases: def@ },
            DataType::Void => DataTypeModel::Void,
        }
    }
}

impl Declaration {
    /// The declaration, as contracts speak of it.
    pub open spec fn view(&self) -> DeclarationModel
        decreases self,
    {
        DeclarationModel {
            decl_type: self.decl_type@,
            data_type: self.data_type.view(),
            name: self.name@,
            needs_lifetime: self.needs_lifetime,
        }
    }
}

impl Struct {
    /// The fields, as contracts speak of them.
    pub open spec fn view(&self) -> Seq<DeclarationModel>
        decreases self,
    {
        Seq::new(
            self.fields@.len(),
            |i: int|
                if 0 <= i < self.fields@.len() {
                    self.fields@[i].view()
                } else {
                    arbitrary()
                },
        )
    }
}

impl Union {
    /// The body of the union, as contracts speak of it.
    pub open spec fn view(&self) -> UnionModel
        decreases self,
    {
        UnionModel {
            discriminant: self.discriminant@,
            cases: Seq::new(
                self.cases@.len(),
                |i: int|
                    if 0 <= i < self.cases@.len() {
                        (self.cases@[i].0@, self.cases@[i].1.view())
                    } else {
                        arbitrary()
                    },
            ),
            default: Box::new(self.default.view()),
        }
    }
}

impl Clone for DeclarationType {
    fn clone(&self) -> (copy: Self)
        ensures
            copy@ == self@,
    {
        match self {
            DeclarationType::Optional => DeclarationType::Optional,
            DeclarationType::VarlenArray => DeclarationType::VarlenArray,
            DeclarationType::FixedlenArray { length } => DeclarationType::FixedlenArray {
                length: length.clone(),
            },
            DeclarationType::TypeNameDecl => DeclarationType::TypeNameDecl,
            DeclarationType::VoidDecl => DeclarationType::VoidDecl,
            DeclarationType::ArraySlice => DeclarationType::ArraySlice,
        }
    }
}

impl Clone for DiscriminantType {
    fn clone(&self) -> (copy: Self)
        ensures
            copy@ == self@,
    {
        match self {
            DiscriminantType::Int => DiscriminantType::Int,
            DiscriminantType::UnsignedInt => DiscriminantType::UnsignedInt,
            DiscriminantType::Boolean => DiscriminantType::Boolean,
            DiscriminantType::Enum { name } => DiscriminantType::Enum { name: name.clone() },
        }
    }
}

impl Clone for Enum {
    fn clone(&self) -> (copy: Self)
        ensures
            copy@ == self@,
    {
        let mut cases: Vec<(String, Value)> = Vec::new();
        let mut i: usize = 0;
        while i < self.cases.len()
            invariant
                i <= self.cases@.len(),
                cases@.len() == i,
                forall|j: int|
                    0 <= j < i ==> (#[trigger] cases@[j]).0@ == self.cases@[j].0@ && cases@[j].1@
                        == self.cases@[j].1@,
            decreases self.cases@.len() - i,
        {
            cases.push((self.cases[i].0.clone(), self.cases[i].1.clone()));
            i += 1;
        }
        let copy = Enum { cases };
        assert(copy@ =~= self@);
        copy
    }
}

impl Clone for DataType {
    fn clone(&self) -> (copy: Self)
        ensures
            copy.view() == self.view(),
        decreases self,
    {
        match self {
            DataType::Integer { length, signed } => DataType::Integer {
                length: *length,
                signed: *signed,
            },
            DataType::Float { length } => DataType::Float { length: *length },
            DataType::String => DataType::String,
            DataType::Boolean => DataType::Boolean,
            DataType::TypeDef { name } => DataType::TypeDef { name: name.clone() },
            DataType::Struct { def } => DataType::Struct { def: def.clone() },
            DataType::Union { def } => DataType::Union { def: def.clone() },
            DataType::Enum { def } => DataType::Enum { def: def.clone() },
            DataType::Void => DataType::Void,
        }
    }
}

impl Clone for Declaration {
    fn clone(&self) -> (copy: Self)
        ensures
            copy.view() == self.view(),
        decreases self,
    {
        Declaration {
            decl_type: self.decl_type.clone(),
            data_type: self.data_type.clone(),
            name: self.name.clone(),
            needs_lifetime: self.needs_lifetime,
        }
    }
}

impl Clone for Struct {
    fn clone(&self) -> (copy: Self)
        ensures
            copy.view() == self.view(),
        decreases self,
    {
        let mut fields: Vec<Declaration> = Vec::new();
        let mut i: usize = 0;
        while i < self.fields.len()
            invariant
                i <= self.fields@.len(),
                fields@.len() == i,
                forall|j: int| 0 <= j < i ==> (#[trigger] fields@[j]).view() == self.fields@[j].view(),
            decreases self.fields@.len() - i,
        {
            fields.push(self.fields[i].clone());
            i += 1;
        }
        let copy = Struct { fields };
        assert(copy.view() =~= self.view());
        copy
    }
}

impl Clone for Union {
    fn clone(&self) -> (copy: Self)
        ensures
            copy.view() == self.view(),
        decreases self,
    {
        let mut cases: Vec<(Value, Declaration)> = Vec::new();
        let mut i: usize = 0;
        while i < self.cases.len()
            invariant
                i <= self.cases@.len(),
                cases@.len() == i,
                forall|j: int|
                    0 <= j < i ==> (#[trigger] cases@[j]).0@ == self.cases@[j].0@
                        && cases@[j].1.view() == self.cases@[j].1.view(),
            decreases self.cases@.len() - i,
        {
            cases.push((self.cases[i].0.clone(), self.cases[i].1.clone()));
            i += 1;
        }
        let copy = Union {
            discriminant: self.discriminant.clone(),
            cases,
            default: Box::new((*self.default).clone()),
        };
        assert(copy.view().cases =~= self.view().cases);
        copy
    }
}

/// Whether a declaration holds a variable-length array: it is one itself,
/// or it names a type definition that is one.
pub open spec fn decl_contains_vararray(decl: DeclarationModel, vararrays: Set<Seq<char>>) -> bool {
    decl.decl_type is VarlenArray || match decl.data_type {
        DataTypeModel::TypeDef { name } => vararrays.contains(name),
        _ => false,
    }
}

/// The form of a declaration that borrows its elements. A variable-length
/// array becomes a slice under a name that ends in `_sliced`; a plain use of
/// a type definition among `vararrays` names the sliced form of that
/// definition; anything else stays as it is.
pub open spec fn sliced_decl(decl: DeclarationModel, vararrays: Set<Seq<char>>) -> DeclarationModel {
    match decl.decl_type {
        DeclarationTypeModel::VarlenArray => DeclarationModel {
            decl_type: DeclarationTypeModel::ArraySlice,
            name: decl.name + "_sliced"@,
            ..decl
        },
        DeclarationTypeModel::TypeNameDecl => match decl.data_type {
            DataTypeModel::TypeDef { name } => if vararrays.contains(name) {
                DeclarationModel {
                    data_type: DataTypeModel::TypeDef { name: name + "_sliced"@ },
                    needs_lifetime: true,
                    ..decl
                }
            } else {
                decl
            },
            _ => decl,
        },
        _ => decl,
    }
}

/// Whether one of `decls` holds a variable-length array.
pub open spec fn any_contains_vararray(
    decls: Seq<DeclarationModel>,
    vararrays: Set<Seq<char>>,
) -> bool {
    exists|i: int| 0 <= i < decls.len() && decl_contains_vararray(#[trigger] decls[i], vararrays)
}

/// The sliced forms of `decls`, in order.
pub open spec fn sliced_decls(decls: Seq<DeclarationModel>, vararrays: Set<Seq<char>>) -> Seq<
    DeclarationModel,
> {
    Seq::new(decls.len(), |i: int| sliced_decl(decls[i], vararrays))
}

impl Declaration {
    /// Whether this declaration holds a variable-length array: it is one
    /// itself, or it names one of the type definitions `vararrays`.
    pub fn update_contains_vararray(&self, vararrays: &NameSet) -> (found: bool)
        ensures
            found == decl_contains_vararray(self.view(), vararrays@),
    {
        match &self.decl_type {
            DeclarationType::VarlenArray => true,
            _ => match &self.data_type {
                DataType::TypeDef { name } => vararrays.contains(name.as_str()),
                _ => false,
            },
        }
    }

    /// The form of this declaration that borrows its elements.
    pub fn sliced_copy(&self, vararrays: &NameSet) -> (sliced: Self)
        ensures
            sliced.view() == sliced_decl(self.view(), vararrays@),
    {
        match &self.decl_type {
            DeclarationType::VarlenArray => Declaration {
                decl_type: DeclarationType::ArraySlice,
                data_type: self.data_type.clone(),
                name: with_suffix(&self.name, "_sliced"),
                needs_lifetime: self.needs_lifetime,
            },
            DeclarationType::TypeNameDecl => match &self.data_type {
                DataType::TypeDef { name } => if vararrays.contains(name.as_str()) {
                    Declaration {
                        decl_type: DeclarationType::TypeNameDecl,
                        data_type: DataType::TypeDef { name: with_suffix(name, "_sliced") },
                        name: self.name.clone(),
                        needs_lifetime: true,
                    }
                } else {
                    self.clone()
                },
                _ => self.clone(),
            },
            _ => self.clone(),
        }
    }
}

impl Struct {
    /// Whether one of the fields holds a variable-length array.
    pub fn contains_vararray(&self, vararrays: &NameSet) -> (found: bool)
        ensures
            found == any_contains_vararray(self.view(), vararrays@),
    {
        let mut i: usize = 0;
        while i < self.fields.len()
            invariant
                i <= self.fields@.len(),
                forall|j: int|
                    0 <= j < i ==> !decl_contains_vararray(
                        (#[trigger] self.fields@[j]).view(),
                        vararrays@,
                    ),
            decreases self.fields@.len() - i,
        {
            if self.fields[i].update_contains_vararray(vararrays) {
                assert(self.view()[i as int] == self.fields@[i as int].view());
                return true;
            }
            i += 1;
        }
        assert forall|j: int| 0 <= j < self.view().len() implies !decl_contains_vararray(
            #[trigger] self.view()[j],
            vararrays@,
        ) by {
            assert(self.view()[j] == self.fields@[j].view());
        }
        false
    }

    /// The body whose fields are the sliced forms of these fields.
    pub fn sliced_copy(&self, vararrays: &NameSet) -> (sliced: Self)
        ensures
            sliced.view() == sliced_decls(self.view(), vararrays@),
    {
        let mut fields: Vec<Declaration> = Vec::new();
        let mut i: usize = 0;
        while i < self.fields.len()
            invariant
                i <= self.fields@.len(),
                fields@.len() == i,
                forall|j: int|
                    0 <= j < i ==> (#[trigger] fields@[j]).view() == sliced_decl(
                        self.fields@[j].view(),
                        vararrays@,
                    ),
            decreases self.fields@.len() - i,
        {
            fields.push(self.fields[i].sliced_copy(vararrays));
            i += 1;
        }
        let sliced = Struct { fields };
        assert(sliced.view() =~= sliced_decls(self.view(), vararrays@));
        sliced
    }
}

/// Whether one of the arms of a union, the default arm included, holds a
/// variable-length array.
pub open spec fn union_contains_vararray(body: UnionModel, vararrays: Set<Seq<char>>) -> bool {
    decl_contains_vararray(*body.default, vararrays) || exists|i: int|
        0 <= i < body.cases.len() && decl_contains_vararray(
            (#[trigger] body.cases[i]).1,
            vararrays,
        )
}

/// The union whose arms are the sliced forms of the arms of `body`.
pub open spec fn sliced_union(body: UnionModel, vararrays: Set<Seq<char>>) -> UnionModel {
    UnionModel {
        discriminant: body.discriminant,
        cases: Seq::new(
            body.cases.len(),
            |i: int| (body.cases[i].0, sliced_decl(body.cases[i].1, vararrays)),
        ),
        default: Box::new(sliced_decl(*body.default, vararrays)),
    }
}

impl Union {
    /// Whether one of the arms holds a variable-length array.
    pub fn contains_vararray(&self, vararrays: &NameSet) -> (found: bool)
        ensures
            found == union_contains_vararray(self.view(), vararrays@),
    {
        if self.default.update_contains_vararray(vararrays) {
            return true;
        }
        let mut i: usize = 0;
        while i < self.cases.len()
            invariant
                i <= self.cases@.len(),
                forall|j: int|
                    0 <= j < i ==> !decl_contains_vararray(
                        (#[trigger] self.cases@[j]).1.view(),
                        vararrays@,
                    ),
            decreases self.cases@.len() - i,
        {
            if self.cases[i].1.update_contains_vararray(vararrays) {
                assert(self.view().cases[i as int].1 == self.cases@[i as int].1.view());
                return true;
            }
            i += 1;
        }
        assert forall|j: int| 0 <= j < self.view().cases.len() implies !decl_contains_vararray(
            (#[trigger] self.view().cases[j]).1,
            vararrays@,
        ) by {
            assert(self.view().cases[j].1 == self.cases@[j].1.view());
        }
        false
    }

    /// The union whose arms are the sliced forms of these arms.
    pub fn sliced_copy(&self, vararrays: &NameSet) -> (sliced: Self)
        ensures
            sliced.view() == sliced_union(self.view(), vararrays@),
    {
        let mut cases: Vec<(Value, Declaration)> = Vec::new();
        let mut i: usize = 0;
        while i < self.cases.len()
            invariant
                i <= self.cases@.len(),
                cases@.len() == i,
                forall|j: int|
                    0 <= j < i ==> (#[trigger] cases@[j]).0@ == self.cases@[j].0@
                        && cases@[j].1.view() == sliced_decl(
                        self.cases@[j].1.view(),
                        vararrays@,
                    ),
            decreases self.cases@.len() - i,
        {
            cases.push((self.cases[i].0.clone(), self.cases[i].1.sliced_copy(vararrays)));
            i += 1;
        }
        let sliced = Union {
            discriminant: self.discriminant.clone(),
            cases,
            default: Box::new(self.default.sliced_copy(vararrays)),
        };
        assert(sliced.view().cases =~= sliced_union(self.view(), vararrays@).cases);
        sliced
    }
}

/// The type that the name of a primitive type of a `.x` file stands for, or
/// `None` where `name` names no primitive type.
pub open spec fn primitive(name: Seq<char>) -> Option<DataTypeModel> {
    if name == "unsigned int"@ {
        Some(DataTypeModel::Integer { length: 32, signed: false })
    } else if name == "int"@ {
        Some(DataTypeModel::Integer { length: 32, signed: true })
    } else if name == "unsigned hyper"@ {
        Some(DataTypeModel::Integer { length: 64, signed: false })
    } else if name == "hyper"@ {
        Some(DataTypeModel::Integer { length: 64, signed: true })
    } else if name == "float"@ {
        Some(DataTypeModel::Float { length: 32 })
    } else if name == "double"@ {
        Some(DataTypeModel::Float { length: 64 })
    } else if name == "quadruple"@ {
        Some(DataTypeModel::Float { length: 128 })
    } else if name == "bool"@ {
        Some(DataTypeModel::Boolean)
    } else if name == "string"@ || name == "string<>"@ {
        Some(DataTypeModel::String)
    } else {
        None
    }
}

/// Reads the name of a primitive type as it is written in a `.x` file.
pub fn parse_primitive(name: &str) -> (r: Option<DataType>)
    ensures
        match r {
            Some(data_type) => primitive(name@) == Some(data_type.view()),
            None => primitive(name@) is None,
        },
{
    if str_eq(name, "unsigned int") {
        Some(DataType::Integer { length: 32, signed: false })
    } else if str_eq(name, "int") {
        Some(DataType::Integer { length: 32, signed: true })
    } else if str_eq(name, "unsigned hyper") {
        Some(DataType::Integer { length: 64, signed: false })
    } else if str_eq(name, "hyper") {
        Some(DataType::Integer { length: 64, signed: true })
    } else if str_eq(name, "float") {
        Some(DataType::Float { length: 32 })
    } else if str_eq(name, "double") {
        Some(DataType::Float { length: 64 })
    } else if str_eq(name, "quadruple") {
        Some(DataType::Float { length: 128 })
    } else if str_eq(name, "bool") {
        Some(DataType::Boolean)
    } else if str_eq(name, "string") || str_eq(name, "string<>") {
        Some(DataType::String)
    } else {
        None
    }
}

} // verus!

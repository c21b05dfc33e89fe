//! The JSON-Schema document that the relational schema is derived from:
//! definitions, concrete types and composite types.

use vstd::prelude::*;
use vstd::std_specs::cmp::PartialEqSpecImpl;
use crate::util::views;

verus! {

/// A schema document: its dialect and its named definitions, by name.
#[derive(Debug)]
pub struct Root {
    pub schema: String,
    pub defs: Vec<(String, Definition)>,
}

/// One named definition.
#[derive(Debug)]
pub struct Definition {
    pub id: String,
    pub title: Option<String>,
    pub ty: Type,
}

/// A type is either concrete or composed of other types.
#[derive(Debug)]
pub enum Type {
    Concrete(ConcreteType),
    Composite(CompositeType),
}

/// A type that stands for itself.
#[derive(Debug)]
pub enum ConcreteType {
    Array { items: Box<Type> },
    Object { properties: Vec<(String, Type)>, required: Vec<String>, additional_properties: bool },
    String { enumeration: Option<Vec<String>>, format: Option<String>, constant: Option<String> },
    Null,
    Boolean,
    Number,
    Integer,
}

/// A type made of other types: a union of them, or a reference to one.
#[derive(Debug)]
pub enum CompositeType {
    AnyOf { any_of: Vec<Type> },
    OneOf { one_of: Vec<Type> },
    Ref { reference: String },
}

/// What a [`Type`] stands for.
pub ghost enum TypeView {
    Concrete(ConcreteTypeView),
    Composite(CompositeTypeView),
}

/// What a [`ConcreteType`] stands for.
pub ghost enum ConcreteTypeView {
    Array { items: Box<TypeView> },
    Object {
        properties: Seq<(Seq<char>, TypeView)>,
        required: Seq<Seq<char>>,
        additional_properties: bool,
    },
    String {
        enumeration: Option<Seq<Seq<char>>>,
        format: Option<Seq<char>>,
        constant: Option<Seq<char>>,
    },
    Null,
    Boolean,
    Number,
    Integer,
}

/// What a [`CompositeType`] stands for.
pub ghost enum CompositeTypeView {
    AnyOf { any_of: Seq<TypeView> },
    OneOf { one_of: Seq<TypeView> },
    Ref { reference: Seq<char> },
}

/// What a [`Definition`] stands for.
pub ghost struct DefinitionView {
    pub id: Seq<char>,
    pub title: Option<Seq<char>>,
    pub ty: TypeView,
}

/// What a [`Root`] stands for.
pub ghost struct RootView {
    pub schema: Seq<char>,
    pub defs: Seq<(Seq<char>, DefinitionView)>,
}

/// The characters of a string, where there is one.
pub open spec fn option_view(s: Option<String>) -> Option<Seq<char>> {
    match s {
        Some(s) => Some(s@),
        None => None,
    }
}

/// What a type stands for.
pub open spec fn type_view(t: Type) -> TypeView
    decreases t,
{
    match t {
        Type::Concrete(c) => TypeView::Concrete(concrete_view(c)),
        Type::Composite(c) => TypeView::Composite(composite_view(c)),
    }
}

/// What a list of types stands for.
pub open spec fn types_view(types: Vec<Type>) -> Seq<TypeView>
    decreases types,
{
    Seq::new(
        types@.len(),
        |i: int|
            if 0 <= i < types@.len() {
                type_view(types@[i])
            } else {
                TypeView::Concrete(ConcreteTypeView::Null)
            },
    )
}

/// What the properties of an object stand for.
pub open spec fn properties_view(properties: Vec<(String, Type)>) -> Seq<(Seq<char>, TypeView)>
    decreases properties,
{
    Seq::new(
        properties@.len(),
        |i: int|
            if 0 <= i < properties@.len() {
                (properties@[i].0@, type_view(properties@[i].1))
            } else {
                (Seq::empty(), TypeView::Concrete(ConcreteTypeView::Null))
            },
    )
}

/// What a concrete type stands for.
pub open spec fn concrete_view(c: ConcreteType) -> ConcreteTypeView
    decreases c,
{
    match c {
        ConcreteType::Array { items } => ConcreteTypeView::Array {
            items: Box::new(type_view(*items)),
        },
        ConcreteType::Object { properties, required, additional_properties } => {
            ConcreteTypeView::Object {
                properties: properties_view(properties),
                required: views(required@),
                additional_properties,
            }
        },
        ConcreteType::String { enumeration, format, constant } => ConcreteTypeView::String {
            enumeration: match enumeration {
                Some(variants) => Some(views(variants@)),
                None => None,
            },
            format: option_view(format),
            constant: option_view(constant),
        },
        ConcreteType::Null => ConcreteTypeView::Null,
        ConcreteType::Boolean => ConcreteTypeView::Boolean,
        ConcreteType::Number => ConcreteTypeView::Number,
        ConcreteType::Integer => ConcreteTypeView::Integer,
    }
}

/// What a composite type stands for.
pub open spec fn composite_view(c: CompositeType) -> CompositeTypeView
    decreases c,
{
    match c {
        CompositeType::AnyOf { any_of } => CompositeTypeView::AnyOf { any_of: types_view(any_of) },
        CompositeType::OneOf { one_of } => CompositeTypeView::OneOf { one_of: types_view(one_of) },
        CompositeType::Ref { reference } => CompositeTypeView::Ref { reference: reference@ },
    }
}

impl View for Type {
    type V = TypeView;

    open spec fn view(&self) -> TypeView {
        type_view(*self)
    }
}

impl View for ConcreteType {
    type V = ConcreteTypeView;

    open spec fn view(&self) -> ConcreteTypeView {
        concrete_view(*self)
    }
}

impl View for CompositeType {
    type V = CompositeTypeView;

    open spec fn view(&self) -> CompositeTypeView {
        composite_view(*self)
    }
}

impl View for Definition {
    type V = DefinitionView;

    open spec fn view(&self) -> DefinitionView {
        DefinitionView { id: self.id@, title: option_view(self.title), ty: self.ty@ }
    }
}

/// The definitions of a document, each with its name.
pub open spec fn definitions_view(defs: Seq<(String, Definition)>) -> Seq<
    (Seq<char>, DefinitionView),
> {
    Seq::new(defs.len(), |i: int| (defs[i].0@, defs[i].1@))
}

impl View for Root {
    type V = RootView;

    open spec fn view(&self) -> RootView {
        RootView { schema: self.schema@, defs: definitions_view(self.defs@) }
    }
}

/// The type `null`.
pub open spec fn null_type() -> TypeView {
    TypeView::Concrete(ConcreteTypeView::Null)
}

/// A string without enumeration, format or constant.
pub open spec fn plain_string_type() -> TypeView {
    TypeView::Concrete(
        ConcreteTypeView::String { enumeration: None, format: None, constant: None },
    )
}

impl Type {
    /// Tells whether this is the type `null`.
    pub fn is_null(&self) -> (r: bool)
        ensures
            r == (self@ == null_type()),
    {
        match self {
            Type::Concrete(ConcreteType::Null) => true,
            _ => false,
        }
    }

    /// Tells whether this is a string without enumeration, format or constant.
    pub fn is_plain_string(&self) -> (r: bool)
        ensures
            r == (self@ == plain_string_type()),
    {
        match self {
            Type::Concrete(
                ConcreteType::String { enumeration: None, format: None, constant: None },
            ) => true,
            _ => false,
        }
    }
}

fn clone_strings(strings: &Vec<String>) -> (r: Vec<String>)
    ensures
        views(r@) == views(strings@),
{
    let mut out: Vec<String> = Vec::new();
    let mut i: usize = 0;
    while i < strings.len()
        invariant
            i <= strings.len(),
            out@.len() == i,
            forall|k: int| 0 <= k < i ==> out@[k]@ == strings@[k]@,
        decreases strings.len() - i,
    {
        out.push(strings[i].clone());
        i += 1;
    }
    assert(views(out@) =~= views(strings@));
    out
}

fn clone_option(s: &Option<String>) -> (r: Option<String>)
    ensures
        option_view(r) == option_view(*s),
{
    match s {
        Some(s) => Some(s.clone()),
        None => None,
    }
}

fn clone_types(types: &Vec<Type>) -> (r: Vec<Type>)
    ensures
        types_view(r) == types_view(*types),
    decreases types,
{
    let mut out: Vec<Type> = Vec::new();
    let mut i: usize = 0;
    while i < types.len()
        invariant
            i <= types.len(),
            out@.len() == i,
            forall|k: int| 0 <= k < i ==> out@[k]@ == types@[k]@,
        decreases types.len() - i,
    {
        out.push(clone_type(&types[i]));
        i += 1;
    }
    assert(types_view(out) =~= types_view(*types));
    out
}

fn clone_properties(properties: &Vec<(String, Type)>) -> (r: Vec<(String, Type)>)
    ensures
        properties_view(r) == properties_view(*properties),
    decreases properties,
{
    let mut out: Vec<(String, Type)> = Vec::new();
    let mut i: usize = 0;
    while i < properties.len()
        invariant
            i <= properties.len(),
            out@.len() == i,
            forall|k: int|
                0 <= k < i ==> out@[k].0@ == properties@[k].0@ && out@[k].1@ == properties@[k].1@,
        decreases properties.len() - i,
    {
        out.push((properties[i].0.clone(), clone_type(&properties[i].1)));
        i += 1;
    }
    assert(properties_view(out) =~= properties_view(*properties));
    out
}

/// A copy of a type.
pub fn clone_type(t: &Type) -> (r: Type)
    ensures
        r@ == t@,
    decreases t,
{
    match t {
        Type::Concrete(ConcreteType::Array { items }) => Type::Concrete(
            ConcreteType::Array { items: Box::new(clone_type(items)) },
        ),
        Type::Concrete(ConcreteType::Object { properties, required, additional_properties }) => {
            Type::Concrete(
                ConcreteType::Object {
                    properties: clone_properties(properties),
                    required: clone_strings(required),
                    additional_properties: *additional_properties,
                },
            )
        },
        Type::Concrete(ConcreteType::String { enumeration, format, constant }) => Type::Concrete(
            ConcreteType::String {
                enumeration: match enumeration {
                    Some(variants) => Some(clone_strings(variants)),
                    None => None,
                },
                format: clone_option(format),
                constant: clone_option(constant),
            },
        ),
        Type::Concrete(ConcreteType::Null) => Type::Concrete(ConcreteType::Null),
        Type::Concrete(ConcreteType::Boolean) => Type::Concrete(ConcreteType::Boolean),
        Type::Concrete(ConcreteType::Number) => Type::Concrete(ConcreteType::Number),
        Type::Concrete(ConcreteType::Integer) => Type::Concrete(ConcreteType::Integer),
        Type::Composite(CompositeType::AnyOf { any_of }) => Type::Composite(
            CompositeType::AnyOf { any_of: clone_types(any_of) },
        ),
        Type::Composite(CompositeType::OneOf { one_of }) => Type::Composite(
            CompositeType::OneOf { one_of: clone_types(one_of) },
        ),
        Type::Composite(CompositeType::Ref { reference }) => Type::Composite(
            CompositeType::Ref { reference: reference.clone() },
        ),
    }
}

impl Clone for Type {
    fn clone(&self) -> (r: Self)
        ensures
            r@ == self@,
    {
        clone_type(self)
    }
}

fn strings_eq(a: &Vec<String>, b: &Vec<String>) -> (r: bool)
    ensures
        r == (views(a@) == views(b@)),
{
    if a.len() != b.len() {
        assert(views(a@).len() != views(b@).len());
        return false;
    }
    let mut i: usize = 0;
    while i < a.len()
        invariant
            i <= a.len(),
            a.len() == b.len(),
            forall|k: int| 0 <= k < i ==> a@[k]@ == b@[k]@,
        decreases a.len() - i,
    {
        if a[i] != b[i] {
            assert(views(a@)[i as int] != views(b@)[i as int]);
            return false;
        }
        i += 1;
    }
    assert(views(a@) =~= views(b@));
    true
}

fn option_eq(a: &Option<String>, b: &Option<String>) -> (r: bool)
    ensures
        r == (option_view(*a) == option_view(*b)),
{
    match (a, b) {
        (Some(x), Some(y)) => *x == *y,
        (None, None) => true,
        _ => false,
    }
}

fn types_eq(a: &Vec<Type>, b: &Vec<Type>) -> (r: bool)
    ensures
        r == (types_view(*a) == types_view(*b)),
    decreases a,
{
    if a.len() != b.len() {
        assert(types_view(*a).len() != types_view(*b).len());
        return false;
    }
    let mut i: usize = 0;
    while i < a.len()
        invariant
            i <= a.len(),
            a.len() == b.len(),
            forall|k: int| 0 <= k < i ==> a@[k]@ == b@[k]@,
        decreases a.len() - i,
    {
        if !type_eq(&a[i], &b[i]) {
            assert(types_view(*a)[i as int] != types_view(*b)[i as int]);
            return false;
        }
        i += 1;
    }
    assert(types_view(*a) =~= types_view(*b));
    true
}

fn properties_eq(a: &Vec<(String, Type)>, b: &Vec<(String, Type)>) -> (r: bool)
    ensures
        r == (properties_view(*a) == properties_view(*b)),
    decreases a,
{
    if a.len() != b.len() {
        assert(properties_view(*a).len() != properties_view(*b).len());
        return false;
    }
    let mut i: usize = 0;
    while i < a.len()
        invariant
            i <= a.len(),
            a.len() == b.len(),
            forall|k: int| 0 <= k < i ==> a@[k].0@ == b@[k].0@ && a@[k].1@ == b@[k].1@,
        decreases a.len() - i,
    {
        if a[i].0 != b[i].0 || !type_eq(&a[i].1, &b[i].1) {
            assert(properties_view(*a)[i as int] != properties_view(*b)[i as int]);
            return false;
        }
        i += 1;
    }
    assert(properties_view(*a) =~= properties_view(*b));
    true
}

/// Tells whether two types are the same, part by part.
pub fn type_eq(a: &Type, b: &Type) -> (r: bool)
    ensures
        r == (a@ == b@),
    decreases a,
{
    match (a, b) {
        (
            Type::Concrete(ConcreteType::Array { items }),
            Type::Concrete(ConcreteType::Array { items: other }),
        ) => type_eq(items, other),
        (
            Type::Concrete(ConcreteType::Object { properties, required, additional_properties }),
            Type::Concrete(
                ConcreteType::Object {
                    properties: other_properties,
                    required: other_required,
                    additional_properties: other_additional,
                },
            ),
        ) => {
            properties_eq(properties, other_properties) && strings_eq(required, other_required)
                && *additional_properties == *other_additional
        },
        (
            Type::Concrete(ConcreteType::String { enumeration, format, constant }),
            Type::Concrete(
                ConcreteType::String {
                    enumeration: other_enumeration,
                    format: other_format,
                    constant: other_constant,
                },
            ),
        ) => {
            let same_enumeration = match (enumeration, other_enumeration) {
                (Some(x), Some(y)) => strings_eq(x, y),
                (None, None) => true,
                _ => false,
            };
            same_enumeration && option_eq(format, other_format) && option_eq(
                constant,
                other_constant,
            )
        },
        (Type::Concrete(ConcreteType::Null), Type::Concrete(ConcreteType::Null)) => true,
        (Type::Concrete(ConcreteType::Boolean), Type::Concrete(ConcreteType::Boolean)) => true,
        (Type::Concrete(ConcreteType::Number), Type::Concrete(ConcreteType::Number)) => true,
        (Type::Concrete(ConcreteType::Integer), Type::Concrete(ConcreteType::Integer)) => true,
        (
            Type::Composite(CompositeType::AnyOf { any_of }),
            Type::Composite(CompositeType::AnyOf { any_of: other }),
        ) => types_eq(any_of, other),
        (
            Type::Composite(CompositeType::OneOf { one_of }),
            Type::Composite(CompositeType::OneOf { one_of: other }),
        ) => types_eq(one_of, other),
        (
            Type::Composite(CompositeType::Ref { reference }),
            Type::Composite(CompositeType::Ref { reference: other }),
        ) => *reference == *other,
        _ => false,
    }
}

impl PartialEq for Type {
    fn eq(&self, other: &Self) -> (r: bool) {
        type_eq(self, other)
    }
}

impl PartialEqSpecImpl for Type {
    open spec fn obeys_eq_spec() -> bool {
        true
    }

    open spec fn eq_spec(&self, other: &Self) -> bool {
        self@ == other@
    }
}

impl From<ConcreteType> for Type {
    fn from(value: ConcreteType) -> (r: Type) {
        Type::Concrete(value)
    }
}

impl vstd::std_specs::convert::FromSpecImpl<ConcreteType> for Type {
    open spec fn obeys_from_spec() -> bool {
        true
    }

    open spec fn from_spec(value: ConcreteType) -> Type {
        Type::Concrete(value)
    }
}

impl From<CompositeType> for Type {
    fn from(value: CompositeType) -> (r: Type) {
        Type::Composite(value)
    }
}

impl vstd::std_specs::convert::FromSpecImpl<CompositeType> for Type {
    open spec fn obeys_from_spec() -> bool {
        true
    }

    open spec fn from_spec(value: CompositeType) -> Type {
        Type::Composite(value)
    }
}

} // verus!

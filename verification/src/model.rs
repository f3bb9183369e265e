//! The description of a type as it is registered: its name, its shape, and
//! the directives written on the type, on its variants and on its fields.
//! Nothing here is validated; see `validate` for the rules.

use crate::directive::Directive;
use vstd::prelude::*;

verus! {

/// What kind of value a field holds.
#[derive(Clone, Copy, Debug, PartialEq, Eq)]
pub enum ValueKind {
    Numeric,
    Textual,
    Opaque,
}

/// One field: its name, the kind of its value, the directive written on it (if
/// any), and whether it is tagged to receive noise before it is masked.
#[derive(Debug)]
pub struct FieldDescription {
    pub name: String,
    pub kind: ValueKind,
    pub directive: Option<Directive>,
    pub noised: bool,
}

/// The three shapes a set of fields can have.
#[derive(Clone, Copy, Debug, PartialEq, Eq)]
pub enum Shape {
    Named,
    Positional,
    Unit,
}

/// The fields of a record or of one variant, in declaration order. A unit
/// shape has no fields by construction.
#[derive(Debug)]
pub enum FieldSet {
    Named(Vec<FieldDescription>),
    Positional(Vec<FieldDescription>),
    Unit,
}

/// One variant of a tagged union, with the directive instances written on it.
#[derive(Debug)]
pub struct VariantDescription {
    pub name: String,
    pub directives: Vec<Directive>,
    pub fields: FieldSet,
}

/// A type is exactly one of a record and a tagged union.
#[derive(Debug)]
pub enum TypeBody {
    Record(FieldSet),
    Union(Vec<VariantDescription>),
}

/// A type as it is handed in for registration.
#[derive(Debug)]
pub struct TypeDescription {
    pub name: String,
    pub generics: Vec<String>,
    pub directive: Option<Directive>,
    pub body: TypeBody,
}

impl FieldSet {
    /// The shape of this set.
    pub open spec fn shape(self) -> Shape {
        match self {
            FieldSet::Named(_) => Shape::Named,
            FieldSet::Positional(_) => Shape::Positional,
            FieldSet::Unit => Shape::Unit,
        }
    }

    /// The fields, in order; none for a unit shape.
    pub open spec fn fields(self) -> Seq<FieldDescription> {
        match self {
            FieldSet::Named(v) => v@,
            FieldSet::Positional(v) => v@,
            FieldSet::Unit => Seq::empty(),
        }
    }

    /// The shape of this set.
    pub fn shape_of(&self) -> (s: Shape)
        ensures
            s == self.shape(),
    {
        match self {
            FieldSet::Named(_) => Shape::Named,
            FieldSet::Positional(_) => Shape::Positional,
            FieldSet::Unit => Shape::Unit,
        }
    }

    /// How many fields the set has.
    pub fn len(&self) -> (n: usize)
        ensures
            n == self.fields().len(),
    {
        match self {
            FieldSet::Named(v) => v.len(),
            FieldSet::Positional(v) => v.len(),
            FieldSet::Unit => 0,
        }
    }

    /// The list of fields, where the shape has one.
    pub fn listed(&self) -> (r: Option<&Vec<FieldDescription>>)
        ensures
            r is None <==> self is Unit,
            r is Some ==> r->0@ == self.fields(),
    {
        match self {
            FieldSet::Named(v) => Some(v),
            FieldSet::Positional(v) => Some(v),
            FieldSet::Unit => None,
        }
    }
}

impl TypeDescription {
    /// How many alternatives a value of the type can take: the number of
    /// variants of a union, and one for a record.
    pub open spec fn variant_count(self) -> nat {
        match self.body {
            TypeBody::Record(_) => 1,
            TypeBody::Union(vs) => vs@.len(),
        }
    }

    /// The name under which alternative `i` is rendered before masking: the
    /// variant's name, or the type's own name for a record.
    pub open spec fn variant_name(self, i: int) -> Seq<char> {
        match self.body {
            TypeBody::Record(_) => self.name@,
            TypeBody::Union(vs) => vs@[i].name@,
        }
    }

    /// The fields of alternative `i`.
    pub open spec fn field_set(self, i: int) -> FieldSet {
        match self.body {
            TypeBody::Record(fs) => fs,
            TypeBody::Union(vs) => vs@[i].fields,
        }
    }

    /// The directive instances written on alternative `i`; a record has none.
    pub open spec fn instances(self, i: int) -> Seq<Directive> {
        match self.body {
            TypeBody::Record(_) => Seq::empty(),
            TypeBody::Union(vs) => vs@[i].directives@,
        }
    }

    /// The directive that variant names inherit when a variant has none of its
    /// own: the type's directive, for a union.
    pub open spec fn inherited(self) -> Option<Directive> {
        match self.body {
            TypeBody::Record(_) => None,
            TypeBody::Union(_) => self.directive,
        }
    }

    /// How many alternatives the type has.
    pub fn count_variants(&self) -> (n: usize)
        ensures
            n == self.variant_count(),
    {
        match &self.body {
            TypeBody::Record(_) => 1,
            TypeBody::Union(vs) => vs.len(),
        }
    }

    /// The name under which alternative `i` is rendered before masking.
    pub(crate) fn variant_name_of(&self, i: usize) -> (name: &str)
        requires
            i < self.variant_count(),
        ensures
            name@ == self.variant_name(i as int),
    {
        match &self.body {
            TypeBody::Record(_) => self.name.as_str(),
            TypeBody::Union(vs) => vs[i].name.as_str(),
        }
    }

    /// The fields of alternative `i`.
    pub(crate) fn field_set_of(&self, i: usize) -> (fs: &FieldSet)
        requires
            i < self.variant_count(),
        ensures
            *fs == self.field_set(i as int),
    {
        match &self.body {
            TypeBody::Record(fs) => fs,
            TypeBody::Union(vs) => &vs[i].fields,
        }
    }
}

} // verus!

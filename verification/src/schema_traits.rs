//! Common traits for schema systems.
//!
//! Unified interfaces over the schema types used in validation, so that generic code
//! can look fields up by name whatever schema type holds them.

use vstd::prelude::*;
use crate::text::str_eq;

verus! {

/// Type category for schema fields.
#[derive(Debug, Clone, Copy, PartialEq, Eq)]
pub enum TypeCategory {
    String,
    Number,
    Bool,
    Array,
    Mapping,
    Optional,
    Unknown,
}

/// Trait for schema fields.
pub trait SchemaField {
    /// The field's name, as a sequence of characters.
    spec fn spec_name(&self) -> Seq<char>;

    /// Whether the field is required.
    spec fn spec_required(&self) -> bool;

    /// The field name.
    fn name(&self) -> (r: &str)
        ensures
            r@ == self.spec_name();

    /// The type name for error messages.
    fn type_label(&self) -> &str;

    /// The type category.
    fn type_category(&self) -> TypeCategory;

    /// Whether this field is required.
    fn is_required(&self) -> (r: bool)
        ensures
            r == self.spec_required();
}

/// Index of the first field named `name` in `fs`, or -1.
pub open spec fn first_named<F: SchemaField>(fs: Seq<F>, name: Seq<char>) -> int
    decreases fs.len(),
{
    if fs.len() == 0 {
        -1
    } else {
        let r = first_named(fs.drop_last(), name);
        if r >= 0 { r } else if fs.last().spec_name() == name { fs.len() - 1 } else { -1 }
    }
}

/// Names of the required fields of `fs`, in order.
pub open spec fn required_names<F: SchemaField>(fs: Seq<F>) -> Seq<Seq<char>>
    decreases fs.len(),
{
    if fs.len() == 0 {
        Seq::empty()
    } else {
        let r = required_names(fs.drop_last());
        if fs.last().spec_required() { r.push(fs.last().spec_name()) } else { r }
    }
}

/// Basic facts about `first_named`.
pub proof fn lemma_first_named<F: SchemaField>(fs: Seq<F>, name: Seq<char>)
    ensures
        -1 <= first_named(fs, name) < fs.len(),
        first_named(fs, name) >= 0 ==> fs[first_named(fs, name)].spec_name() == name,
        first_named(fs, name) >= 0 ==> forall|j: int| 0 <= j < first_named(fs, name) ==> fs[j].spec_name() != name,
        first_named(fs, name) < 0 ==> forall|j: int| 0 <= j < fs.len() ==> fs[j].spec_name() != name,
    decreases fs.len(),
{
    if fs.len() > 0 {
        lemma_first_named(fs.drop_last(), name);
        assert(forall|j: int| 0 <= j < fs.len() - 1 ==> fs.drop_last()[j] == fs[j]);
    }
}

/// Trait for object/struct schemas.
pub trait Schema {
    /// Field type for this schema.
    type Field: SchemaField;

    /// The schema name.
    fn name(&self) -> &str;

    /// All fields, as a sequence.
    spec fn spec_fields(&self) -> Seq<Self::Field>;

    /// All fields.
    fn fields(&self) -> (r: &[Self::Field])
        ensures
            r@ == self.spec_fields();

    /// Whether some field is called `name`.
    fn has_field(&self, name: &str) -> (r: bool)
        ensures
            r == (first_named(self.spec_fields(), name@) >= 0),
    {
        self.get_field(name).is_some()
    }

    /// The first field called `name`.
    fn get_field(&self, name: &str) -> (r: Option<&Self::Field>)
        ensures
            r is None <==> first_named(self.spec_fields(), name@) < 0,
            r matches Some(f) ==> *f == self.spec_fields()[first_named(self.spec_fields(), name@)],
    {
        let fs = self.fields();
        proof { lemma_first_named(fs@, name@); }
        let mut i: usize = 0;
        while i < fs.len()
            invariant
                fs@ == self.spec_fields(),
                i <= fs@.len(),
                forall|j: int| 0 <= j < i ==> fs@[j].spec_name() != name@,
            decreases fs@.len() - i,
        {
            if str_eq(fs[i].name(), name) {
                proof { lemma_first_named(fs@, name@); }
                return Some(&fs[i]);
            }
            i = i + 1;
        }
        None
    }

    /// Names of required fields, in field order.
    fn required_field_names(&self) -> (r: Vec<&str>)
        ensures
            r@.map_values(|s: &str| s@) == required_names(self.spec_fields()),
    {
        let fs = self.fields();
        let mut r: Vec<&str> = Vec::new();
        let mut i: usize = 0;
        while i < fs.len()
            invariant
                fs@ == self.spec_fields(),
                i <= fs@.len(),
                r@.map_values(|s: &str| s@) == required_names(fs@.subrange(0, i as int)),
            decreases fs@.len() - i,
        {
            assert(fs@.subrange(0, i + 1).drop_last() =~= fs@.subrange(0, i as int));
            let ghost before = r@;
            if fs[i].is_required() {
                let n = fs[i].name();
                r.push(n);
                assert(r@.map_values(|s: &str| s@) =~= before.map_values(|s: &str| s@).push(n@));
            }
            i = i + 1;
        }
        assert(fs@.subrange(0, i as int) =~= fs@);
        r
    }

    /// All field names, in field order.
    fn field_names(&self) -> (r: Vec<&str>)
        ensures
            r@.map_values(|s: &str| s@) == self.spec_fields().map_values(|f: Self::Field| f.spec_name()),
    {
        let fs = self.fields();
        let mut r: Vec<&str> = Vec::new();
        let mut i: usize = 0;
        while i < fs.len()
            invariant
                fs@ == self.spec_fields(),
                i <= fs@.len(),
                r@.map_values(|s: &str| s@) == fs@.subrange(0, i as int).map_values(|f: Self::Field| f.spec_name()),
            decreases fs@.len() - i,
        {
            let ghost before = r@;
            let n = fs[i].name();
            r.push(n);
            assert(r@.map_values(|s: &str| s@) =~= before.map_values(|s: &str| s@).push(n@));
            assert(fs@.subrange(0, i + 1).map_values(|f: Self::Field| f.spec_name())
                =~= fs@.subrange(0, i as int).map_values(|f: Self::Field| f.spec_name()).push(fs@[i as int].spec_name()));
            i = i + 1;
            assert(r@.map_values(|s: &str| s@) =~= fs@.subrange(0, i as int).map_values(|f: Self::Field| f.spec_name()));
        }
        assert(fs@.subrange(0, i as int) =~= fs@);
        r
    }
}

/// Trait for schema registries that store multiple schemas.
pub trait SchemaRegistry {
    /// Schema type stored in this registry.
    type Schema: Schema;

    /// Whether the registry holds a schema called `name`.
    spec fn spec_has_schema(&self, name: Seq<char>) -> bool;

    /// The schema called `name`.
    fn get_schema(&self, name: &str) -> (r: Option<&Self::Schema>)
        ensures
            r is Some == self.spec_has_schema(name@);

    /// Whether a schema called `name` exists.
    fn has_schema(&self, name: &str) -> (r: bool)
        ensures
            r == self.spec_has_schema(name@),
    {
        self.get_schema(name).is_some()
    }
}

} // verus!

//! Schema types for script validation.
//!
//! Archetype schemas describe the fields of data structs that scripts produce; action
//! schemas describe the parameters of player actions; definition schemas describe the
//! fields of definition scripts such as ship or weapon catalogues.

use vstd::prelude::*;
use crate::text::{seq_contains, seq_starts_with, str_eq, str_contains, str_starts_with, owned, append_str};
use crate::maps::StrMap;

verus! {

// =============================================================================
// Archetype Schema
// =============================================================================

/// Schema information for an archetype struct.
#[derive(Debug, Clone, Copy)]
pub struct ArchetypeSchema {
    /// Name of the struct
    pub name: &'static str,
    /// Field schemas
    pub fields: &'static [FieldSchema],
}

/// Schema information for a single field.
#[derive(Debug, Clone, Copy)]
pub struct FieldSchema {
    /// Field name in scripts (after rename if applicable)
    pub name: &'static str,
    /// Rust type name
    pub rust_type: &'static str,
    /// Whether the field is required (no default)
    pub required: bool,
}

/// Names of the required fields, in order.
pub open spec fn required_field_names(fs: Seq<FieldSchema>) -> Seq<&'static str>
    decreases fs.len(),
{
    if fs.len() == 0 {
        Seq::empty()
    } else {
        let r = required_field_names(fs.drop_last());
        if fs.last().required { r.push(fs.last().name) } else { r }
    }
}

/// Index of the first field called `name`, or -1.
pub open spec fn first_field_named(fs: Seq<FieldSchema>, name: Seq<char>) -> int
    decreases fs.len(),
{
    if fs.len() == 0 {
        -1
    } else {
        let r = first_field_named(fs.drop_last(), name);
        if r >= 0 { r } else if fs.last().name@ == name { fs.len() - 1 } else { -1 }
    }
}

proof fn lemma_first_field_named(fs: Seq<FieldSchema>, name: Seq<char>)
    ensures
        -1 <= first_field_named(fs, name) < fs.len(),
        first_field_named(fs, name) >= 0 ==> fs[first_field_named(fs, name)].name@ == name,
        first_field_named(fs, name) >= 0 ==> forall|j: int| 0 <= j < first_field_named(fs, name) ==> fs[j].name@ != name,
        first_field_named(fs, name) < 0 ==> forall|j: int| 0 <= j < fs.len() ==> fs[j].name@ != name,
    decreases fs.len(),
{
    if fs.len() > 0 {
        lemma_first_field_named(fs.drop_last(), name);
        assert(forall|j: int| 0 <= j < fs.len() - 1 ==> fs.drop_last()[j] == fs[j]);
    }
}

impl ArchetypeSchema {
    /// All required field names, in field order.
    pub fn required_fields(&self) -> (r: Vec<&'static str>)
        ensures
            r@ == required_field_names(self.fields@),
    {
        let mut r: Vec<&'static str> = Vec::new();
        let mut i: usize = 0;
        while i < self.fields.len()
            invariant
                i <= self.fields@.len(),
                r@ == required_field_names(self.fields@.subrange(0, i as int)),
            decreases self.fields@.len() - i,
        {
            assert(self.fields@.subrange(0, i + 1).drop_last() =~= self.fields@.subrange(0, i as int));
            if self.fields[i].required {
                r.push(self.fields[i].name);
            }
            i = i + 1;
        }
        assert(self.fields@.subrange(0, i as int) =~= self.fields@);
        r
    }

    /// The first field called `name`.
    pub fn get_field(&self, name: &str) -> (r: Option<&FieldSchema>)
        ensures
            r is None <==> first_field_named(self.fields@, name@) < 0,
            r matches Some(f) ==> *f == self.fields@[first_field_named(self.fields@, name@)],
    {
        proof { lemma_first_field_named(self.fields@, name@); }
        let mut i: usize = 0;
        while i < self.fields.len()
            invariant
                i <= self.fields@.len(),
                forall|j: int| 0 <= j < i ==> self.fields@[j].name@ != name@,
            decreases self.fields@.len() - i,
        {
            if str_eq(self.fields[i].name, name) {
                proof { lemma_first_field_named(self.fields@, name@); }
                return Some(&self.fields[i]);
            }
            i = i + 1;
        }
        None
    }

    /// Whether some field is called `name`.
    pub fn has_field(&self, name: &str) -> (r: bool)
        ensures
            r == exists|j: int| 0 <= j < self.fields@.len() && self.fields@[j].name@ == name@,
    {
        proof { lemma_first_field_named(self.fields@, name@); }
        self.get_field(name).is_some()
    }

    /// All field names, in field order.
    pub fn field_names(&self) -> (r: Vec<&'static str>)
        ensures
            r@ == self.fields@.map_values(|f: FieldSchema| f.name),
    {
        let mut r: Vec<&'static str> = Vec::new();
        let mut i: usize = 0;
        while i < self.fields.len()
            invariant
                i <= self.fields@.len(),
                r@ == self.fields@.subrange(0, i as int).map_values(|f: FieldSchema| f.name),
            decreases self.fields@.len() - i,
        {
            r.push(self.fields[i].name);
            i = i + 1;
            assert(r@ =~= self.fields@.subrange(0, i as int).map_values(|f: FieldSchema| f.name));
        }
        assert(self.fields@.subrange(0, i as int) =~= self.fields@);
        r
    }
}

impl FieldSchema {
    /// Whether the field's type is a string type: its type name contains `String`.
    pub fn is_string(&self) -> (r: bool)
        ensures
            r == (self.rust_type@ == "String"@ || seq_contains(self.rust_type@, "String"@)),
    {
        str_eq(self.rust_type, "String") || str_contains(self.rust_type, "String")
    }

    /// Whether the field's type is one of the numeric primitive types.
    pub fn is_numeric(&self) -> (r: bool)
        ensures
            r == (self.rust_type@ == "f32"@ || self.rust_type@ == "f64"@ || self.rust_type@ == "i32"@
                || self.rust_type@ == "i64"@ || self.rust_type@ == "u32"@ || self.rust_type@ == "u64"@
                || self.rust_type@ == "i16"@ || self.rust_type@ == "u16"@),
    {
        let t = self.rust_type;
        str_eq(t, "f32") || str_eq(t, "f64") || str_eq(t, "i32") || str_eq(t, "i64")
            || str_eq(t, "u32") || str_eq(t, "u64") || str_eq(t, "i16") || str_eq(t, "u16")
    }

    /// Whether the field's type is `bool`.
    pub fn is_bool(&self) -> (r: bool)
        ensures
            r == (self.rust_type@ == "bool"@),
    {
        str_eq(self.rust_type, "bool")
    }

    /// Whether the field's type is a vector.
    pub fn is_array(&self) -> (r: bool)
        ensures
            r == seq_starts_with(self.rust_type@, "Vec<"@),
    {
        str_starts_with(self.rust_type, "Vec<")
    }

    /// Whether the field's type is optional.
    pub fn is_optional(&self) -> (r: bool)
        ensures
            r == seq_starts_with(self.rust_type@, "Option<"@),
    {
        str_starts_with(self.rust_type, "Option<")
    }
}

/// Types that provide schema information for validation.
pub trait RhaiSchema {
    /// The schema for this type.
    fn schema() -> ArchetypeSchema;
}

// =============================================================================
// Action Parameter Schema
// =============================================================================

/// Schema for a single action's parameters.
#[derive(Debug)]
pub struct ActionSchema {
    /// Human-readable description
    pub description: String,
    /// Parameter definitions, by parameter name
    pub params: StrMap<ParamSchema>,
}

/// Schema for a single parameter.
#[derive(Debug)]
pub struct ParamSchema {
    /// Type of the parameter: uuid, string, int, float, bool, array
    pub param_type: String,
    /// Whether this parameter is required
    pub required: bool,
}

impl Clone for ParamSchema {
    fn clone(&self) -> (r: Self)
        ensures
            r == *self,
    {
        ParamSchema { param_type: self.param_type.clone(), required: self.required }
    }
}

/// Names of required parameters, given keys and values in entry order.
pub open spec fn required_param_names(keys: Seq<Seq<char>>, values: Seq<ParamSchema>) -> Seq<Seq<char>>
    decreases keys.len(),
{
    if keys.len() == 0 || values.len() == 0 {
        Seq::empty()
    } else {
        let r = required_param_names(keys.drop_last(), values.drop_last());
        if values.last().required { r.push(keys.last()) } else { r }
    }
}

impl ActionSchema {
    /// An action schema with no parameters.
    pub fn new(description: &str) -> (r: Self)
        ensures
            r.description@ == description@,
            r.params.wf(),
            r.params@.len() == 0,
    {
        ActionSchema { description: owned(description), params: StrMap::new() }
    }

    /// All required parameter names, in parameter order.
    pub fn required_params(&self) -> (r: Vec<String>)
        requires
            self.params.wf(),
        ensures
            r@.map_values(|s: String| s@) == required_param_names(self.params.key_seq(), self.params.value_seq()),
    {
        proof { self.params.lemma_dom(); }
        let n = self.params.len();
        let mut r: Vec<String> = Vec::new();
        let mut i: usize = 0;
        while i < n
            invariant
                self.params.wf(),
                n == self.params.key_seq().len(),
                n == self.params.value_seq().len(),
                i <= n,
                r@.map_values(|s: String| s@) == required_param_names(
                    self.params.key_seq().subrange(0, i as int),
                    self.params.value_seq().subrange(0, i as int),
                ),
            decreases n - i,
        {
            let ghost before = r@;
            let e = self.params.entry_at(i);
            assert(self.params.key_seq().subrange(0, i + 1).drop_last() =~= self.params.key_seq().subrange(0, i as int));
            assert(self.params.value_seq().subrange(0, i + 1).drop_last() =~= self.params.value_seq().subrange(0, i as int));
            if e.1.required {
                let k = e.0.clone();
                r.push(k);
                assert(r@.map_values(|s: String| s@) =~= before.map_values(|s: String| s@).push(k@));
            }
            i = i + 1;
        }
        assert(self.params.key_seq().subrange(0, n as int) =~= self.params.key_seq());
        assert(self.params.value_seq().subrange(0, n as int) =~= self.params.value_seq());
        r
    }

    /// Whether a parameter called `name` exists.
    pub fn has_param(&self, name: &str) -> (r: bool)
        requires
            self.params.wf(),
        ensures
            r == self.params@.contains_key(name@),
    {
        self.params.contains_key(name)
    }

    /// The schema of the parameter called `name`.
    pub fn get_param(&self, name: &str) -> (r: Option<&ParamSchema>)
        requires
            self.params.wf(),
        ensures
            r is None <==> !self.params@.contains_key(name@),
            r matches Some(p) ==> *p == self.params@[name@],
    {
        self.params.get(name)
    }
}

impl ParamSchema {
    /// A parameter of the given type.
    pub fn new(param_type: &str, required: bool) -> (r: Self)
        ensures
            r.param_type@ == param_type@,
            r.required == required,
    {
        ParamSchema { param_type: owned(param_type), required }
    }

    /// Whether the parameter's type is `uuid`.
    pub fn is_uuid(&self) -> (r: bool)
        ensures
            r == (self.param_type@ == "uuid"@),
    {
        str_eq(self.param_type.as_str(), "uuid")
    }

    /// Whether the parameter's type is `string`.
    pub fn is_string(&self) -> (r: bool)
        ensures
            r == (self.param_type@ == "string"@),
    {
        str_eq(self.param_type.as_str(), "string")
    }

    /// Whether the parameter's type is `int`.
    pub fn is_int(&self) -> (r: bool)
        ensures
            r == (self.param_type@ == "int"@),
    {
        str_eq(self.param_type.as_str(), "int")
    }

    /// Whether the parameter's type is `float`.
    pub fn is_float(&self) -> (r: bool)
        ensures
            r == (self.param_type@ == "float"@),
    {
        str_eq(self.param_type.as_str(), "float")
    }

    /// Whether the parameter's type is `bool`.
    pub fn is_bool(&self) -> (r: bool)
        ensures
            r == (self.param_type@ == "bool"@),
    {
        str_eq(self.param_type.as_str(), "bool")
    }

    /// Whether the parameter's type is `array`.
    pub fn is_array(&self) -> (r: bool)
        ensures
            r == (self.param_type@ == "array"@),
    {
        str_eq(self.param_type.as_str(), "array")
    }
}

/// Collection of all action schemas.
#[derive(Debug)]
pub struct ActionSchemaRegistry {
    /// Map from action name to schema
    pub actions: StrMap<ActionSchema>,
}

/// All parameter schemas of all actions are well formed.
pub open spec fn actions_wf(actions: StrMap<ActionSchema>) -> bool {
    &&& actions.wf()
    &&& forall|k: Seq<char>| #[trigger] actions@.contains_key(k) ==> actions@[k].params.wf()
}

/// Name for what `format!("{:?}", items)` writes for a list of strings.
pub uninterp spec fn debug_string_list(items: Seq<Seq<char>>) -> Seq<char>;

/// Calls `format!` with `{:?}` on the list of names; its text is named `debug_string_list`.
#[verifier::external_body]
pub(crate) fn format_debug_list(items: &Vec<String>) -> (r: String)
    ensures
        r@ == debug_string_list(items@.map_values(|s: String| s@)),
{
    format!("{:?}", items)
}

/// The message for an access to an unknown parameter.
pub open spec fn unknown_param_message(param_key: Seq<char>, action: Seq<char>, valid: Seq<Seq<char>>) -> Seq<char> {
    "Unknown param '"@ + param_key + "' for action '"@ + action + "'. Valid params: "@ + debug_string_list(valid)
}

impl ActionSchemaRegistry {
    /// An empty registry.
    pub fn new() -> (r: Self)
        ensures
            actions_wf(r.actions),
            r.actions@.len() == 0,
    {
        ActionSchemaRegistry { actions: StrMap::new() }
    }

    /// Adds or replaces the schema of an action.
    pub fn insert(&mut self, action: String, schema: ActionSchema)
        requires
            actions_wf(old(self).actions),
            schema.params.wf(),
        ensures
            actions_wf(final(self).actions),
            final(self).actions@ == old(self).actions@.insert(action@, schema),
    {
        self.actions.insert(action, schema);
    }

    /// The schema of an action.
    pub fn get(&self, action: &str) -> (r: Option<&ActionSchema>)
        requires
            actions_wf(self.actions),
        ensures
            r is None <==> !self.actions@.contains_key(action@),
            r matches Some(s) ==> *s == self.actions@[action@],
    {
        self.actions.get(action)
    }

    /// Whether an action is known.
    pub fn has_action(&self, action: &str) -> (r: bool)
        requires
            actions_wf(self.actions),
        ensures
            r == self.actions@.contains_key(action@),
    {
        self.actions.contains_key(action)
    }

    /// All known action names, in registration order.
    pub fn action_names(&self) -> (r: Vec<String>)
        requires
            actions_wf(self.actions),
        ensures
            r@.map_values(|s: String| s@) == self.actions.key_seq(),
    {
        self.actions.keys()
    }

    /// Checks an access to parameter `param_key` of `action`. Returns a message when the
    /// action is known and has no such parameter; an unknown action is not checked.
    pub fn validate_param_access(&self, action: &str, param_key: &str) -> (r: Option<String>)
        requires
            actions_wf(self.actions),
        ensures
            r is Some <==> (self.actions@.contains_key(action@)
                && !self.actions@[action@].params@.contains_key(param_key@)),
            r matches Some(m) ==> m@ == unknown_param_message(param_key@, action@,
                self.actions@[action@].params.key_seq()),
    {
        match self.get(action) {
            Some(schema) => {
                if !schema.has_param(param_key) {
                    let names = schema.params.keys();
                    let listed = format_debug_list(&names);
                    let mut msg = owned("Unknown param '");
                    append_str(&mut msg, param_key);
                    append_str(&mut msg, "' for action '");
                    append_str(&mut msg, action);
                    append_str(&mut msg, "'. Valid params: ");
                    append_str(&mut msg, listed.as_str());
                    return Some(msg);
                }
                None
            },
            None => None,
        }
    }
}

// =============================================================================
// Definition Schema
// =============================================================================

/// Expected type of a definition field.
#[derive(Debug, Clone, Copy, PartialEq, Eq)]
pub enum DefFieldType {
    /// String value
    String,
    /// Numeric value (int or float)
    Number,
    /// Boolean value
    Bool,
    /// Array of any type
    Array,
    /// Map/Object
    Mapping,
    /// Any type (no validation)
    Any,
}

impl DefFieldType {
    /// Display name for error messages.
    pub fn name(&self) -> (r: &'static str)
        ensures
            r@ == match *self {
                DefFieldType::String => "string"@,
                DefFieldType::Number => "number"@,
                DefFieldType::Bool => "bool"@,
                DefFieldType::Array => "array"@,
                DefFieldType::Mapping => "map"@,
                DefFieldType::Any => "any"@,
            },
    {
        match self {
            DefFieldType::String => "string",
            DefFieldType::Number => "number",
            DefFieldType::Bool => "bool",
            DefFieldType::Array => "array",
            DefFieldType::Mapping => "map",
            DefFieldType::Any => "any",
        }
    }
}

/// Schema for a single field in a definition.
#[derive(Debug, Clone, Copy)]
pub struct DefFieldSchema {
    /// Field name
    pub name: &'static str,
    /// Expected type
    pub field_type: DefFieldType,
    /// Whether this field is required
    pub required: bool,
}

impl DefFieldSchema {
    /// A required field.
    pub fn required(name: &'static str, field_type: DefFieldType) -> (r: Self)
        ensures
            r == (DefFieldSchema { name, field_type, required: true }),
    {
        DefFieldSchema { name, field_type, required: true }
    }

    /// An optional field.
    pub fn optional(name: &'static str, field_type: DefFieldType) -> (r: Self)
        ensures
            r == (DefFieldSchema { name, field_type, required: false }),
    {
        DefFieldSchema { name, field_type, required: false }
    }
}

/// Schema for a definition type (e.g., ShipArchetype, WeaponArchetype).
#[derive(Debug, Clone, Copy)]
pub struct DefinitionSchema {
    /// Name of the archetype type
    pub name: &'static str,
    /// Field schemas
    pub fields: &'static [DefFieldSchema],
}

/// Names of the required definition fields, in order.
pub open spec fn required_def_names(fs: Seq<DefFieldSchema>) -> Seq<&'static str>
    decreases fs.len(),
{
    if fs.len() == 0 {
        Seq::empty()
    } else {
        let r = required_def_names(fs.drop_last());
        if fs.last().required { r.push(fs.last().name) } else { r }
    }
}

/// Index of the first definition field called `name`, or -1.
pub open spec fn first_def_named(fs: Seq<DefFieldSchema>, name: Seq<char>) -> int
    decreases fs.len(),
{
    if fs.len() == 0 {
        -1
    } else {
        let r = first_def_named(fs.drop_last(), name);
        if r >= 0 { r } else if fs.last().name@ == name { fs.len() - 1 } else { -1 }
    }
}

proof fn lemma_first_def_named(fs: Seq<DefFieldSchema>, name: Seq<char>)
    ensures
        -1 <= first_def_named(fs, name) < fs.len(),
        first_def_named(fs, name) >= 0 ==> fs[first_def_named(fs, name)].name@ == name,
        first_def_named(fs, name) >= 0 ==> forall|j: int| 0 <= j < first_def_named(fs, name) ==> fs[j].name@ != name,
        first_def_named(fs, name) < 0 ==> forall|j: int| 0 <= j < fs.len() ==> fs[j].name@ != name,
    decreases fs.len(),
{
    if fs.len() > 0 {
        lemma_first_def_named(fs.drop_last(), name);
        assert(forall|j: int| 0 <= j < fs.len() - 1 ==> fs.drop_last()[j] == fs[j]);
    }
}

impl DefinitionSchema {
    /// All required field names, in field order.
    pub fn required_fields(&self) -> (r: Vec<&'static str>)
        ensures
            r@ == required_def_names(self.fields@),
    {
        let mut r: Vec<&'static str> = Vec::new();
        let mut i: usize = 0;
        while i < self.fields.len()
            invariant
                i <= self.fields@.len(),
                r@ == required_def_names(self.fields@.subrange(0, i as int)),
            decreases self.fields@.len() - i,
        {
            assert(self.fields@.subrange(0, i + 1).drop_last() =~= self.fields@.subrange(0, i as int));
            if self.fields[i].required {
                r.push(self.fields[i].name);
            }
            i = i + 1;
        }
        assert(self.fields@.subrange(0, i as int) =~= self.fields@);
        r
    }

    /// The first field called `name`.
    pub fn get_field(&self, name: &str) -> (r: Option<&DefFieldSchema>)
        ensures
            r is None <==> first_def_named(self.fields@, name@) < 0,
            r matches Some(f) ==> *f == self.fields@[first_def_named(self.fields@, name@)],
    {
        proof { lemma_first_def_named(self.fields@, name@); }
        let mut i: usize = 0;
        while i < self.fields.len()
            invariant
                i <= self.fields@.len(),
                forall|j: int| 0 <= j < i ==> self.fields@[j].name@ != name@,
            decreases self.fields@.len() - i,
        {
            if str_eq(self.fields[i].name, name) {
                proof { lemma_first_def_named(self.fields@, name@); }
                return Some(&self.fields[i]);
            }
            i = i + 1;
        }
        None
    }

    /// Whether some field is called `name`.
    pub fn has_field(&self, name: &str) -> (r: bool)
        ensures
            r == exists|j: int| 0 <= j < self.fields@.len() && self.fields@[j].name@ == name@,
    {
        proof { lemma_first_def_named(self.fields@, name@); }
        self.get_field(name).is_some()
    }

    /// All field names, in field order.
    pub fn field_names(&self) -> (r: Vec<&'static str>)
        ensures
            r@ == self.fields@.map_values(|f: DefFieldSchema| f.name),
    {
        let mut r: Vec<&'static str> = Vec::new();
        let mut i: usize = 0;
        while i < self.fields.len()
            invariant
                i <= self.fields@.len(),
                r@ == self.fields@.subrange(0, i as int).map_values(|f: DefFieldSchema| f.name),
            decreases self.fields@.len() - i,
        {
            r.push(self.fields[i].name);
            i = i + 1;
            assert(r@ =~= self.fields@.subrange(0, i as int).map_values(|f: DefFieldSchema| f.name));
        }
        assert(self.fields@.subrange(0, i as int) =~= self.fields@);
        r
    }
}

/// Registry of definition schemas for validation.
#[derive(Debug)]
pub struct DefinitionSchemaRegistry {
    schemas: StrMap<DefinitionSchema>,
}

/// The definition type a script path names, by the first matching catalogue directory.
pub open spec fn inferred_type(path: Seq<char>) -> Option<Seq<char>> {
    if seq_contains(path, "ships"@) {
        Some("ship"@)
    } else if seq_contains(path, "weapons"@) {
        Some("weapon"@)
    } else if seq_contains(path, "effects"@) {
        Some("effect"@)
    } else if seq_contains(path, "cargo"@) {
        Some("cargo"@)
    } else if seq_contains(path, "abilities"@) {
        Some("ability"@)
    } else if seq_contains(path, "factions"@) {
        Some("faction"@)
    } else {
        None
    }
}

impl DefinitionSchemaRegistry {
    /// The schemas, by definition type.
    pub closed spec fn view(&self) -> Map<Seq<char>, DefinitionSchema> {
        self.schemas@
    }

    /// The registry's internal map is well formed.
    pub closed spec fn wf(&self) -> bool {
        self.schemas.wf()
    }

    /// An empty registry.
    pub fn new() -> (r: Self)
        ensures
            r.wf(),
            r@ == Map::<Seq<char>, DefinitionSchema>::empty(),
    {
        DefinitionSchemaRegistry { schemas: StrMap::new() }
    }

    /// A registry holding every built-in schema.
    pub fn with_builtins() -> (r: Self)
        ensures
            r.wf(),
            r@.dom() == set!["ship"@, "weapon"@, "effect"@, "cargo"@, "ability"@, "faction"@],
            r@["ship"@].name@ == "ShipArchetype"@ && r@["ship"@].fields@ == ship_fields(),
            r@["weapon"@].name@ == "WeaponArchetype"@ && r@["weapon"@].fields@ == weapon_fields(),
            r@["effect"@].name@ == "EffectArchetype"@ && r@["effect"@].fields@ == effect_fields(),
            r@["cargo"@].name@ == "CargoArchetype"@ && r@["cargo"@].fields@ == cargo_fields(),
            r@["ability"@].name@ == "AbilityArchetype"@ && r@["ability"@].fields@ == ability_fields(),
            r@["faction"@].name@ == "FactionArchetype"@ && r@["faction"@].fields@ == faction_fields(),
    {
        let mut registry = Self::new();
        let ship = ship_schema();
        let weapon = weapon_schema();
        let effect = effect_schema();
        let cargo = cargo_schema();
        let ability = ability_schema();
        let faction = faction_schema();
        registry.register("ship", ship);
        registry.register("weapon", weapon);
        registry.register("effect", effect);
        registry.register("cargo", cargo);
        registry.register("ability", ability);
        registry.register("faction", faction);
        proof {
            reveal_strlit("ship");
            reveal_strlit("weapon");
            reveal_strlit("effect");
            reveal_strlit("cargo");
            reveal_strlit("ability");
            reveal_strlit("faction");
            assert("ship"@.len() == 4 && "cargo"@.len() == 5);
            assert("weapon"@.len() == 6 && "effect"@.len() == 6 && "weapon"@[0] != "effect"@[0]);
            assert("ability"@.len() == 7 && "faction"@.len() == 7 && "ability"@[0] != "faction"@[0]);
            assert(registry@["ship"@] == ship);
            assert(registry@["weapon"@] == weapon);
            assert(registry@.dom() =~= set!["ship"@, "weapon"@, "effect"@, "cargo"@, "ability"@, "faction"@]);
        }
        registry
    }

    /// Register a schema for a definition type.
    pub fn register(&mut self, name: &str, schema: DefinitionSchema)
        requires
            old(self).wf(),
        ensures
            final(self).wf(),
            final(self)@ == old(self)@.insert(name@, schema),
    {
        self.schemas.insert(owned(name), schema);
    }

    /// The schema for a definition type.
    pub fn get(&self, name: &str) -> (r: Option<&DefinitionSchema>)
        requires
            self.wf(),
        ensures
            r is None <==> !self@.contains_key(name@),
            r matches Some(s) ==> *s == self@[name@],
    {
        self.schemas.get(name)
    }

    /// The definition type of a script, from the catalogue directory its path names.
    pub fn infer_type_from_path(&self, path: &str) -> (r: Option<&'static str>)
        ensures
            match inferred_type(path@) {
                Some(t) => r matches Some(s) && s@ == t,
                None => r is None,
            },
    {
        if str_contains(path, "ships") {
            Some("ship")
        } else if str_contains(path, "weapons") {
            Some("weapon")
        } else if str_contains(path, "effects") {
            Some("effect")
        } else if str_contains(path, "cargo") {
            Some("cargo")
        } else if str_contains(path, "abilities") {
            Some("ability")
        } else if str_contains(path, "factions") {
            Some("faction")
        } else {
            None
        }
    }
}


// =============================================================================
// Built-in Definition Schemas
// =============================================================================

/// The fields of the ShipArchetype definition, in order.
pub open spec fn ship_fields() -> Seq<DefFieldSchema> {
    seq![
        DefFieldSchema { name: "id", field_type: DefFieldType::String, required: true },
        DefFieldSchema { name: "name", field_type: DefFieldType::String, required: true },
        DefFieldSchema { name: "description", field_type: DefFieldType::String, required: false },
        DefFieldSchema { name: "tier", field_type: DefFieldType::Number, required: false },
        DefFieldSchema { name: "attack", field_type: DefFieldType::Number, required: false },
        DefFieldSchema { name: "defense", field_type: DefFieldType::Number, required: false },
        DefFieldSchema { name: "speed", field_type: DefFieldType::Number, required: false },
        DefFieldSchema { name: "shield_capacity", field_type: DefFieldType::Number, required: false },
        DefFieldSchema { name: "sensor_range", field_type: DefFieldType::Number, required: false },
        DefFieldSchema { name: "cargo_capacity", field_type: DefFieldType::Number, required: false },
        DefFieldSchema { name: "fuel_per_sector", field_type: DefFieldType::Number, required: false },
        DefFieldSchema { name: "ammo_per_attack", field_type: DefFieldType::Number, required: false },
        DefFieldSchema { name: "weapons", field_type: DefFieldType::Array, required: false },
        DefFieldSchema { name: "upgrade_slots", field_type: DefFieldType::Array, required: false },
        DefFieldSchema { name: "is_player_class", field_type: DefFieldType::Bool, required: false },
        DefFieldSchema { name: "is_hostile", field_type: DefFieldType::Bool, required: false },
        DefFieldSchema { name: "behaviors", field_type: DefFieldType::Array, required: false },
        DefFieldSchema { name: "unlock", field_type: DefFieldType::Mapping, required: false },
        DefFieldSchema { name: "stats", field_type: DefFieldType::Mapping, required: false },
    ]
}

/// The ShipArchetype definition schema.
pub fn ship_schema() -> (r: DefinitionSchema)
    ensures
        r.name@ == "ShipArchetype"@,
        r.fields@ == ship_fields(),
{
    let r = DefinitionSchema {
        name: "ShipArchetype",
        fields: &[
            DefFieldSchema { name: "id", field_type: DefFieldType::String, required: true },
            DefFieldSchema { name: "name", field_type: DefFieldType::String, required: true },
            DefFieldSchema { name: "description", field_type: DefFieldType::String, required: false },
            DefFieldSchema { name: "tier", field_type: DefFieldType::Number, required: false },
            DefFieldSchema { name: "attack", field_type: DefFieldType::Number, required: false },
            DefFieldSchema { name: "defense", field_type: DefFieldType::Number, required: false },
            DefFieldSchema { name: "speed", field_type: DefFieldType::Number, required: false },
            DefFieldSchema { name: "shield_capacity", field_type: DefFieldType::Number, required: false },
            DefFieldSchema { name: "sensor_range", field_type: DefFieldType::Number, required: false },
            DefFieldSchema { name: "cargo_capacity", field_type: DefFieldType::Number, required: false },
            DefFieldSchema { name: "fuel_per_sector", field_type: DefFieldType::Number, required: false },
            DefFieldSchema { name: "ammo_per_attack", field_type: DefFieldType::Number, required: false },
            DefFieldSchema { name: "weapons", field_type: DefFieldType::Array, required: false },
            DefFieldSchema { name: "upgrade_slots", field_type: DefFieldType::Array, required: false },
            DefFieldSchema { name: "is_player_class", field_type: DefFieldType::Bool, required: false },
            DefFieldSchema { name: "is_hostile", field_type: DefFieldType::Bool, required: false },
            DefFieldSchema { name: "behaviors", field_type: DefFieldType::Array, required: false },
            DefFieldSchema { name: "unlock", field_type: DefFieldType::Mapping, required: false },
            DefFieldSchema { name: "stats", field_type: DefFieldType::Mapping, required: false },
        ],
    };
    assert(r.fields@ =~= ship_fields());
    r
}

/// The fields of the WeaponArchetype definition, in order.
pub open spec fn weapon_fields() -> Seq<DefFieldSchema> {
    seq![
        DefFieldSchema { name: "id", field_type: DefFieldType::String, required: true },
        DefFieldSchema { name: "name", field_type: DefFieldType::String, required: true },
        DefFieldSchema { name: "description", field_type: DefFieldType::String, required: false },
        DefFieldSchema { name: "damage", field_type: DefFieldType::Number, required: false },
        DefFieldSchema { name: "accuracy", field_type: DefFieldType::Number, required: false },
        DefFieldSchema { name: "ammo_cost", field_type: DefFieldType::Number, required: false },
        DefFieldSchema { name: "range_modifier", field_type: DefFieldType::Number, required: false },
        DefFieldSchema { name: "effects", field_type: DefFieldType::Array, required: false },
        DefFieldSchema { name: "category", field_type: DefFieldType::String, required: false },
        DefFieldSchema { name: "tier", field_type: DefFieldType::Number, required: false },
        DefFieldSchema { name: "cost", field_type: DefFieldType::Number, required: false },
    ]
}

/// The WeaponArchetype definition schema.
pub fn weapon_schema() -> (r: DefinitionSchema)
    ensures
        r.name@ == "WeaponArchetype"@,
        r.fields@ == weapon_fields(),
{
    let r = DefinitionSchema {
        name: "WeaponArchetype",
        fields: &[
            DefFieldSchema { name: "id", field_type: DefFieldType::String, required: true },
            DefFieldSchema { name: "name", field_type: DefFieldType::String, required: true },
            DefFieldSchema { name: "description", field_type: DefFieldType::String, required: false },
            DefFieldSchema { name: "damage", field_type: DefFieldType::Number, required: false },
            DefFieldSchema { name: "accuracy", field_type: DefFieldType::Number, required: false },
            DefFieldSchema { name: "ammo_cost", field_type: DefFieldType::Number, required: false },
            DefFieldSchema { name: "range_modifier", field_type: DefFieldType::Number, required: false },
            DefFieldSchema { name: "effects", field_type: DefFieldType::Array, required: false },
            DefFieldSchema { name: "category", field_type: DefFieldType::String, required: false },
            DefFieldSchema { name: "tier", field_type: DefFieldType::Number, required: false },
            DefFieldSchema { name: "cost", field_type: DefFieldType::Number, required: false },
        ],
    };
    assert(r.fields@ =~= weapon_fields());
    r
}

/// The fields of the EffectArchetype definition, in order.
pub open spec fn effect_fields() -> Seq<DefFieldSchema> {
    seq![
        DefFieldSchema { name: "id", field_type: DefFieldType::String, required: true },
        DefFieldSchema { name: "name", field_type: DefFieldType::String, required: true },
        DefFieldSchema { name: "description", field_type: DefFieldType::String, required: false },
        DefFieldSchema { name: "icon", field_type: DefFieldType::String, required: false },
        DefFieldSchema { name: "type", field_type: DefFieldType::String, required: false },
        DefFieldSchema { name: "handler", field_type: DefFieldType::String, required: false },
        DefFieldSchema { name: "params", field_type: DefFieldType::Mapping, required: false },
        DefFieldSchema { name: "stacking", field_type: DefFieldType::String, required: false },
        DefFieldSchema { name: "trigger", field_type: DefFieldType::String, required: false },
    ]
}

/// The EffectArchetype definition schema.
pub fn effect_schema() -> (r: DefinitionSchema)
    ensures
        r.name@ == "EffectArchetype"@,
        r.fields@ == effect_fields(),
{
    let r = DefinitionSchema {
        name: "EffectArchetype",
        fields: &[
            DefFieldSchema { name: "id", field_type: DefFieldType::String, required: true },
            DefFieldSchema { name: "name", field_type: DefFieldType::String, required: true },
            DefFieldSchema { name: "description", field_type: DefFieldType::String, required: false },
            DefFieldSchema { name: "icon", field_type: DefFieldType::String, required: false },
            DefFieldSchema { name: "type", field_type: DefFieldType::String, required: false },
            DefFieldSchema { name: "handler", field_type: DefFieldType::String, required: false },
            DefFieldSchema { name: "params", field_type: DefFieldType::Mapping, required: false },
            DefFieldSchema { name: "stacking", field_type: DefFieldType::String, required: false },
            DefFieldSchema { name: "trigger", field_type: DefFieldType::String, required: false },
        ],
    };
    assert(r.fields@ =~= effect_fields());
    r
}

/// The fields of the CargoArchetype definition, in order.
pub open spec fn cargo_fields() -> Seq<DefFieldSchema> {
    seq![
        DefFieldSchema { name: "id", field_type: DefFieldType::String, required: true },
        DefFieldSchema { name: "name", field_type: DefFieldType::String, required: true },
        DefFieldSchema { name: "description", field_type: DefFieldType::String, required: false },
        DefFieldSchema { name: "base_price", field_type: DefFieldType::Number, required: false },
        DefFieldSchema { name: "weight", field_type: DefFieldType::Number, required: false },
        DefFieldSchema { name: "legal", field_type: DefFieldType::Bool, required: false },
        DefFieldSchema { name: "volatility", field_type: DefFieldType::Number, required: false },
        DefFieldSchema { name: "contraband_penalty", field_type: DefFieldType::Number, required: false },
        DefFieldSchema { name: "category", field_type: DefFieldType::String, required: false },
        DefFieldSchema { name: "special_effects", field_type: DefFieldType::Array, required: false },
        DefFieldSchema { name: "icon", field_type: DefFieldType::String, required: false },
        DefFieldSchema { name: "tier", field_type: DefFieldType::Number, required: false },
        DefFieldSchema { name: "abundance", field_type: DefFieldType::Number, required: false },
        DefFieldSchema { name: "demand_modifiers", field_type: DefFieldType::Mapping, required: false },
    ]
}

/// The CargoArchetype definition schema.
pub fn cargo_schema() -> (r: DefinitionSchema)
    ensures
        r.name@ == "CargoArchetype"@,
        r.fields@ == cargo_fields(),
{
    let r = DefinitionSchema {
        name: "CargoArchetype",
        fields: &[
            DefFieldSchema { name: "id", field_type: DefFieldType::String, required: true },
            DefFieldSchema { name: "name", field_type: DefFieldType::String, required: true },
            DefFieldSchema { name: "description", field_type: DefFieldType::String, required: false },
            DefFieldSchema { name: "base_price", field_type: DefFieldType::Number, required: false },
            DefFieldSchema { name: "weight", field_type: DefFieldType::Number, required: false },
            DefFieldSchema { name: "legal", field_type: DefFieldType::Bool, required: false },
            DefFieldSchema { name: "volatility", field_type: DefFieldType::Number, required: false },
            DefFieldSchema { name: "contraband_penalty", field_type: DefFieldType::Number, required: false },
            DefFieldSchema { name: "category", field_type: DefFieldType::String, required: false },
            DefFieldSchema { name: "special_effects", field_type: DefFieldType::Array, required: false },
            DefFieldSchema { name: "icon", field_type: DefFieldType::String, required: false },
            DefFieldSchema { name: "tier", field_type: DefFieldType::Number, required: false },
            DefFieldSchema { name: "abundance", field_type: DefFieldType::Number, required: false },
            DefFieldSchema { name: "demand_modifiers", field_type: DefFieldType::Mapping, required: false },
        ],
    };
    assert(r.fields@ =~= cargo_fields());
    r
}

/// The fields of the AbilityArchetype definition, in order.
pub open spec fn ability_fields() -> Seq<DefFieldSchema> {
    seq![
        DefFieldSchema { name: "id", field_type: DefFieldType::String, required: true },
        DefFieldSchema { name: "name", field_type: DefFieldType::String, required: true },
        DefFieldSchema { name: "description", field_type: DefFieldType::String, required: false },
        DefFieldSchema { name: "icon", field_type: DefFieldType::String, required: false },
        DefFieldSchema { name: "type", field_type: DefFieldType::String, required: false },
        DefFieldSchema { name: "target", field_type: DefFieldType::String, required: false },
        DefFieldSchema { name: "cost", field_type: DefFieldType::Mapping, required: false },
        DefFieldSchema { name: "cooldown", field_type: DefFieldType::Number, required: false },
        DefFieldSchema { name: "effects", field_type: DefFieldType::Array, required: false },
        DefFieldSchema { name: "requirements", field_type: DefFieldType::Mapping, required: false },
        DefFieldSchema { name: "tier", field_type: DefFieldType::Number, required: false },
        DefFieldSchema { name: "is_passive", field_type: DefFieldType::Bool, required: false },
    ]
}

/// The AbilityArchetype definition schema.
pub fn ability_schema() -> (r: DefinitionSchema)
    ensures
        r.name@ == "AbilityArchetype"@,
        r.fields@ == ability_fields(),
{
    let r = DefinitionSchema {
        name: "AbilityArchetype",
        fields: &[
            DefFieldSchema { name: "id", field_type: DefFieldType::String, required: true },
            DefFieldSchema { name: "name", field_type: DefFieldType::String, required: true },
            DefFieldSchema { name: "description", field_type: DefFieldType::String, required: false },
            DefFieldSchema { name: "icon", field_type: DefFieldType::String, required: false },
            DefFieldSchema { name: "type", field_type: DefFieldType::String, required: false },
            DefFieldSchema { name: "target", field_type: DefFieldType::String, required: false },
            DefFieldSchema { name: "cost", field_type: DefFieldType::Mapping, required: false },
            DefFieldSchema { name: "cooldown", field_type: DefFieldType::Number, required: false },
            DefFieldSchema { name: "effects", field_type: DefFieldType::Array, required: false },
            DefFieldSchema { name: "requirements", field_type: DefFieldType::Mapping, required: false },
            DefFieldSchema { name: "tier", field_type: DefFieldType::Number, required: false },
            DefFieldSchema { name: "is_passive", field_type: DefFieldType::Bool, required: false },
        ],
    };
    assert(r.fields@ =~= ability_fields());
    r
}

/// The fields of the FactionArchetype definition, in order.
pub open spec fn faction_fields() -> Seq<DefFieldSchema> {
    seq![
        DefFieldSchema { name: "id", field_type: DefFieldType::String, required: true },
        DefFieldSchema { name: "name", field_type: DefFieldType::String, required: true },
        DefFieldSchema { name: "description", field_type: DefFieldType::String, required: false },
        DefFieldSchema { name: "color", field_type: DefFieldType::String, required: false },
        DefFieldSchema { name: "icon", field_type: DefFieldType::String, required: false },
        DefFieldSchema { name: "tag", field_type: DefFieldType::String, required: false },
        DefFieldSchema { name: "tier", field_type: DefFieldType::Number, required: false },
        DefFieldSchema { name: "is_playable", field_type: DefFieldType::Bool, required: false },
        DefFieldSchema { name: "is_hostile", field_type: DefFieldType::Bool, required: false },
        DefFieldSchema { name: "is_territorial", field_type: DefFieldType::Bool, required: false },
        DefFieldSchema { name: "default_standing", field_type: DefFieldType::Number, required: false },
        DefFieldSchema { name: "behaviors", field_type: DefFieldType::Mapping, required: false },
        DefFieldSchema { name: "behavior_modifiers", field_type: DefFieldType::Mapping, required: false },
        DefFieldSchema { name: "combat_bonuses", field_type: DefFieldType::Mapping, required: false },
        DefFieldSchema { name: "standing_requirements", field_type: DefFieldType::Mapping, required: false },
        DefFieldSchema { name: "relations", field_type: DefFieldType::Mapping, required: false },
        DefFieldSchema { name: "home_sectors", field_type: DefFieldType::Array, required: false },
        DefFieldSchema { name: "preferred_ships", field_type: DefFieldType::Array, required: false },
    ]
}

/// The FactionArchetype definition schema.
pub fn faction_schema() -> (r: DefinitionSchema)
    ensures
        r.name@ == "FactionArchetype"@,
        r.fields@ == faction_fields(),
{
    let r = DefinitionSchema {
        name: "FactionArchetype",
        fields: &[
            DefFieldSchema { name: "id", field_type: DefFieldType::String, required: true },
            DefFieldSchema { name: "name", field_type: DefFieldType::String, required: true },
            DefFieldSchema { name: "description", field_type: DefFieldType::String, required: false },
            DefFieldSchema { name: "color", field_type: DefFieldType::String, required: false },
            DefFieldSchema { name: "icon", field_type: DefFieldType::String, required: false },
            DefFieldSchema { name: "tag", field_type: DefFieldType::String, required: false },
            DefFieldSchema { name: "tier", field_type: DefFieldType::Number, required: false },
            DefFieldSchema { name: "is_playable", field_type: DefFieldType::Bool, required: false },
            DefFieldSchema { name: "is_hostile", field_type: DefFieldType::Bool, required: false },
            DefFieldSchema { name: "is_territorial", field_type: DefFieldType::Bool, required: false },
            DefFieldSchema { name: "default_standing", field_type: DefFieldType::Number, required: false },
            DefFieldSchema { name: "behaviors", field_type: DefFieldType::Mapping, required: false },
            DefFieldSchema { name: "behavior_modifiers", field_type: DefFieldType::Mapping, required: false },
            DefFieldSchema { name: "combat_bonuses", field_type: DefFieldType::Mapping, required: false },
            DefFieldSchema { name: "standing_requirements", field_type: DefFieldType::Mapping, required: false },
            DefFieldSchema { name: "relations", field_type: DefFieldType::Mapping, required: false },
            DefFieldSchema { name: "home_sectors", field_type: DefFieldType::Array, required: false },
            DefFieldSchema { name: "preferred_ships", field_type: DefFieldType::Array, required: false },
        ],
    };
    assert(r.fields@ =~= faction_fields());
    r
}

} // verus!

use bw_scripting::schema::{
    ArchetypeSchema, FieldSchema, ActionSchema, ActionSchemaRegistry, ParamSchema, DefFieldType,
    DefFieldSchema, DefinitionSchemaRegistry, ship_schema,
};

#[test]
fn test_archetype_schema() {
    static FIELDS: [FieldSchema; 3] = [
        FieldSchema { name: "id", rust_type: "String", required: true },
        FieldSchema { name: "tier", rust_type: "u32", required: false },
        FieldSchema { name: "tags", rust_type: "Vec<String>", required: false },
    ];

    let schema = ArchetypeSchema {
        name: "TestArchetype",
        fields: &FIELDS,
    };

    assert_eq!(schema.name, "TestArchetype");
    assert_eq!(schema.fields.len(), 3);

    // Test required_fields
    let required: Vec<_> = schema.required_fields();
    assert_eq!(required, vec!["id"]);

    // Test get_field
    let id_field = schema.get_field("id").unwrap();
    assert!(id_field.is_string());
    assert!(id_field.required);

    let tier_field = schema.get_field("tier").unwrap();
    assert!(tier_field.is_numeric());
    assert!(!tier_field.required);

    let tags_field = schema.get_field("tags").unwrap();
    assert!(tags_field.is_array());

    // Test has_field
    assert!(schema.has_field("id"));
    assert!(!schema.has_field("nonexistent"));
    assert_eq!(schema.field_names(), vec!["id", "tier", "tags"]);
}

#[test]
fn test_field_schema_type_checks() {
    let string_field = FieldSchema { name: "name", rust_type: "String", required: true };
    assert!(string_field.is_string());
    assert!(!string_field.is_numeric());

    let int_field = FieldSchema { name: "count", rust_type: "i32", required: true };
    assert!(int_field.is_numeric());
    assert!(!int_field.is_string());

    let bool_field = FieldSchema { name: "active", rust_type: "bool", required: true };
    assert!(bool_field.is_bool());

    let vec_field = FieldSchema { name: "items", rust_type: "Vec<String>", required: false };
    assert!(vec_field.is_array());

    let opt_field = FieldSchema { name: "desc", rust_type: "Option<String>", required: false };
    assert!(opt_field.is_optional());
}

fn dock_registry() -> ActionSchemaRegistry {
    let mut registry = ActionSchemaRegistry::new();
    let mut dock = ActionSchema::new("Dock at a station");
    dock.params.insert("station_id".to_string(), ParamSchema::new("uuid", true));
    registry.insert("dock".to_string(), dock);
    registry
}

#[test]
fn test_action_schema_load() {
    let mut registry = ActionSchemaRegistry::new();
    let mut dock = ActionSchema::new("Dock at a station");
    dock.params.insert("station_id".to_string(), ParamSchema::new("uuid", true));
    registry.insert("dock".to_string(), dock);
    registry.insert("undock".to_string(), ActionSchema::new("Undock from current station"));
    let mut fire = ActionSchema::new("Fire a weapon");
    fire.params.insert("weapon_index".to_string(), ParamSchema::new("int", true));
    fire.params.insert("target_id".to_string(), ParamSchema::new("uuid", true));
    registry.insert("fire_weapon".to_string(), fire);

    assert!(registry.has_action("dock"));
    let dock = registry.get("dock").unwrap();
    assert_eq!(dock.description, "Dock at a station");
    assert!(dock.has_param("station_id"));
    let station_id = dock.get_param("station_id").unwrap();
    assert!(station_id.is_uuid());
    assert!(station_id.required);

    let undock = registry.get("undock").unwrap();
    assert!(undock.params.len() == 0);

    let fire = registry.get("fire_weapon").unwrap();
    let required = fire.required_params();
    assert_eq!(required.len(), 2);
    assert!(required.contains(&"weapon_index".to_string()));
    assert!(required.contains(&"target_id".to_string()));

    assert!(!registry.has_action("nonexistent"));
}

#[test]
fn test_action_schema_validation() {
    let mut registry = ActionSchemaRegistry::new();
    let mut dock = ActionSchema::new("");
    dock.params.insert("station_id".to_string(), ParamSchema::new("uuid", true));
    registry.insert("dock".to_string(), dock);

    assert!(registry.validate_param_access("dock", "station_id").is_none());

    let error = registry.validate_param_access("dock", "invalid_key");
    assert!(error.is_some());
    assert!(error.unwrap().contains("Unknown param"));

    assert!(registry.validate_param_access("custom_action", "any_param").is_none());
}

#[test]
fn action_schema_lookup_and_params() {
    let mut registry = dock_registry();
    let mut fire = ActionSchema::new("Fire a weapon");
    fire.params.insert("weapon_index".to_string(), ParamSchema::new("int", true));
    fire.params.insert("target_id".to_string(), ParamSchema::new("uuid", true));
    fire.params.insert("burst".to_string(), ParamSchema::new("bool", false));
    registry.insert("fire_weapon".to_string(), fire);
    registry.insert("undock".to_string(), ActionSchema::new("Undock from current station"));

    let fire = registry.get("fire_weapon").unwrap();
    let required = fire.required_params();
    assert_eq!(required, vec!["weapon_index".to_string(), "target_id".to_string()]);
    assert!(fire.get_param("weapon_index").unwrap().is_int());
    assert!(fire.get_param("burst").unwrap().is_bool());
    assert_eq!(registry.action_names(), vec!["dock".to_string(), "fire_weapon".to_string(), "undock".to_string()]);
}

#[test]
fn action_schema_param_validation() {
    let registry = dock_registry();
    let error = registry.validate_param_access("dock", "invalid_key");
    assert_eq!(error.unwrap(), "Unknown param 'invalid_key' for action 'dock'. Valid params: [\"station_id\"]");
}

#[test]
fn param_type_checks() {
    assert!(ParamSchema::new("string", false).is_string());
    assert!(ParamSchema::new("float", false).is_float());
    assert!(ParamSchema::new("array", false).is_array());
    assert!(!ParamSchema::new("array", false).is_uuid());
}

#[test]
fn definition_schemas_and_path_inference() {
    let registry = DefinitionSchemaRegistry::with_builtins();
    let ship = registry.get("ship").unwrap();
    assert_eq!(ship.name, "ShipArchetype");
    assert_eq!(ship.required_fields(), vec!["id", "name"]);
    assert!(ship.has_field("cargo_capacity"));
    assert_eq!(ship.get_field("weapons").unwrap().field_type, DefFieldType::Array);
    assert_eq!(ship.field_names().len(), ship_schema().fields.len());
    assert_eq!(registry.get("faction").unwrap().name, "FactionArchetype");
    assert!(registry.get("planet").is_none());
    assert_eq!(registry.infer_type_from_path("defs/ships/corvette.rhai"), Some("ship"));
    assert_eq!(registry.infer_type_from_path("defs/cargo.rhai"), Some("cargo"));
    assert_eq!(registry.infer_type_from_path("defs/abilities.rhai"), Some("ability"));
    assert_eq!(registry.infer_type_from_path("defs/other.rhai"), None);
}

#[test]
fn def_field_helpers() {
    let f = DefFieldSchema::required("id", DefFieldType::String);
    assert!(f.required);
    let g = DefFieldSchema::optional("tier", DefFieldType::Number);
    assert!(!g.required);
    assert_eq!(DefFieldType::Mapping.name(), "map");
    assert_eq!(DefFieldType::Any.name(), "any");
    let mut registry = DefinitionSchemaRegistry::new();
    assert!(registry.get("ship").is_none());
    registry.register("ship", ship_schema());
    assert!(registry.get("ship").is_some());
}

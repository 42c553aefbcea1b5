//! The per-module type dictionary: lookups by module and type name, and the
//! merge of two dictionaries.

use desub::modules::{EnumField, Modules, ModuleTypes, SetField, StructField, TypeMarker};

fn sample_types() -> ModuleTypes {
    ModuleTypes {
        types: vec![
            (
                "Extrinsic".to_string(),
                TypeMarker::TypePointer("GenericExtrinsic".to_string()),
            ),
            ("BlockNumber".to_string(), TypeMarker::U64),
            (
                "ChangesTrieConfiguration".to_string(),
                TypeMarker::Struct(vec![
                    StructField { name: "digestInterval".to_string(), ty: TypeMarker::U32 },
                    StructField { name: "digestLevels".to_string(), ty: TypeMarker::U32 },
                ]),
            ),
            (
                "Reasons".to_string(),
                TypeMarker::Enum(vec![
                    EnumField { name: "Fee".to_string(), value: None },
                    EnumField { name: "Misc".to_string(), value: None },
                    EnumField { name: "All".to_string(), value: None },
                ]),
            ),
            (
                "WithdrawReasons".to_string(),
                TypeMarker::BitSet(vec![
                    SetField { name: "TransactionPayment".to_string(), num: 1 },
                    SetField { name: "Transfer".to_string(), num: 2 },
                ]),
            ),
        ],
    }
}

#[test]
fn module_types_get() {
    let mt = sample_types();
    assert_eq!(mt.get("BlockNumber"), Some(&TypeMarker::U64));
    assert_eq!(
        mt.get("Extrinsic"),
        Some(&TypeMarker::TypePointer("GenericExtrinsic".to_string()))
    );
    assert_eq!(mt.get("Missing"), None);
}

#[test]
fn modules_get_and_get_type() {
    let m = Modules { modules: vec![("runtime".to_string(), sample_types())] };
    assert!(m.get("runtime").is_some());
    assert!(m.get("nothing").is_none());
    assert_eq!(m.get_type("runtime", "BlockNumber"), Some(&TypeMarker::U64));
    assert_eq!(m.get_type("runtime", "Missing"), None);
    assert_eq!(m.get_type("nothing", "BlockNumber"), None);
}

#[test]
fn module_types_merge_prefers_other() {
    let base = sample_types();
    let override_map = ModuleTypes {
        types: vec![
            ("BlockNumber".to_string(), TypeMarker::U32),
            ("Hash".to_string(), TypeMarker::TypePointer("H256".to_string())),
        ],
    };
    let merged = base.merge(&override_map);
    // the right-hand side wins on conflicts
    assert_eq!(merged.get("BlockNumber"), Some(&TypeMarker::U32));
    // new names appear
    assert_eq!(merged.get("Hash"), Some(&TypeMarker::TypePointer("H256".to_string())));
    // untouched names keep their markers
    assert_eq!(
        merged.get("ChangesTrieConfiguration"),
        Some(&TypeMarker::Struct(vec![
            StructField { name: "digestInterval".to_string(), ty: TypeMarker::U32 },
            StructField { name: "digestLevels".to_string(), ty: TypeMarker::U32 },
        ]))
    );
    assert_eq!(
        merged.get("WithdrawReasons"),
        Some(&TypeMarker::BitSet(vec![
            SetField { name: "TransactionPayment".to_string(), num: 1 },
            SetField { name: "Transfer".to_string(), num: 2 },
        ]))
    );
}

#[test]
fn modules_iter_types_flattens_in_order() {
    let m = Modules {
        modules: vec![
            (
                "a".to_string(),
                ModuleTypes {
                    types: vec![
                        ("X".to_string(), TypeMarker::U32),
                        ("Y".to_string(), TypeMarker::Bool),
                    ],
                },
            ),
            (
                "b".to_string(),
                ModuleTypes { types: vec![("Z".to_string(), TypeMarker::U64)] },
            ),
        ],
    };
    let all = m.iter_types();
    assert_eq!(all.len(), 3);
    assert_eq!(all[0], (&"X".to_string(), &TypeMarker::U32));
    assert_eq!(all[1], (&"Y".to_string(), &TypeMarker::Bool));
    assert_eq!(all[2], (&"Z".to_string(), &TypeMarker::U64));
}

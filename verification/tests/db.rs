use archmind_core::db::{assemble, filter_schema, nullable_flag, ColRow, FkRow, PkRow};

fn col(schema: &str, table: &str, column: &str, nullable: bool) -> ColRow {
    ColRow {
        schema: schema.into(),
        table: table.into(),
        column: column.into(),
        data_type: "integer".into(),
        nullable,
    }
}

#[test]
fn assembla_tabelle_da_righe() {
    let cols = vec![
        ColRow { schema: "public".into(), table: "orders".into(), column: "id".into(), data_type: "integer".into(), nullable: false },
        ColRow { schema: "public".into(), table: "orders".into(), column: "customer_id".into(), data_type: "integer".into(), nullable: true },
    ];
    let pks = vec![PkRow { schema: "public".into(), table: "orders".into(), column: "id".into() }];
    let fks = vec![FkRow { schema: "public".into(), table: "orders".into(), column: "customer_id".into(), ref_table: "customers".into(), ref_column: "id".into() }];

    let tables = assemble(cols, pks, fks);
    assert_eq!(tables.len(), 1);
    let t = &tables[0];
    assert_eq!(t.id, "table:orders");
    assert!(t.columns.iter().find(|c| c.name == "id").unwrap().primary_key);
    assert_eq!(t.foreign_keys.len(), 1);
    assert_eq!(t.foreign_keys[0].references_table, "customers");
}

#[test]
fn assemble_orders_tables_by_key_each_once() {
    let cols = vec![
        col("sales", "Alpha", "x", true),
        col("public", "beta", "y", true),
        col("public", "Alpha", "z", false),
        col("sales", "Alpha", "w", true),
    ];
    let tables = assemble(cols, vec![], vec![]);
    let keys: Vec<String> = tables
        .iter()
        .map(|t| format!("{}.{}", t.schema.clone().unwrap(), t.name))
        .collect();
    assert_eq!(keys, vec!["public.Alpha", "public.beta", "sales.Alpha"]);
    assert_eq!(tables[0].id, "table:alpha");
    let names: Vec<&str> = tables[2].columns.iter().map(|c| c.name.as_str()).collect();
    assert_eq!(names, vec!["x", "w"]);
    assert!(!tables[1].columns[0].primary_key);
}

#[test]
fn assemble_ignores_rows_of_unknown_tables() {
    let cols = vec![col("public", "orders", "id", false)];
    let pks = vec![PkRow { schema: "public".into(), table: "ghost".into(), column: "id".into() }];
    let fks = vec![FkRow {
        schema: "other".into(),
        table: "orders".into(),
        column: "id".into(),
        ref_table: "x".into(),
        ref_column: "y".into(),
    }];
    let tables = assemble(cols, pks, fks);
    assert_eq!(tables.len(), 1);
    assert!(!tables[0].columns[0].primary_key);
    assert!(tables[0].foreign_keys.is_empty());
}

#[test]
fn assemble_marks_the_first_column_of_a_name() {
    let cols = vec![col("s", "t", "id", false), col("s", "t", "id", true)];
    let pks = vec![PkRow { schema: "s".into(), table: "t".into(), column: "id".into() }];
    let tables = assemble(cols, pks, vec![]);
    assert!(tables[0].columns[0].primary_key);
    assert!(!tables[0].columns[1].primary_key);
}

#[test]
fn filter_schema_keeps_one_schema() {
    let cols = vec![col("a", "t1", "x", true), col("b", "t2", "y", true)];
    let tables = assemble(cols, vec![], vec![]);
    let kept = filter_schema(tables, Some("b"));
    assert_eq!(kept.len(), 1);
    assert_eq!(kept[0].name, "t2");
    let all = filter_schema(assemble(vec![col("a", "t", "x", true)], vec![], vec![]), None);
    assert_eq!(all.len(), 1);
}

#[test]
fn nullable_comes_from_yes() {
    assert!(nullable_flag("YES"));
    assert!(!nullable_flag("NO"));
    assert!(!nullable_flag("yes"));
}

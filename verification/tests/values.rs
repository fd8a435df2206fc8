use nebulous::state::App;
use nebulous::table::{table_from_rows, NebTable, TableRow, KV};
use nebulous::timing::{tick_due, tick_timeout, TICK_RATE_MS};
use nebulous::value::{convert, render_text, ConvertError, ItemValue, RemoteValue};

#[test]
fn scalar_conversion_round_trips_to_canonical_text() {
    let v = convert(&RemoteValue::N("42".to_string())).unwrap();
    assert!(matches!(v, ItemValue::Number(42)));
    assert_eq!(render_text(&v), "42");

    let v = convert(&RemoteValue::N("-7".to_string())).unwrap();
    assert!(matches!(v, ItemValue::Number(-7)));
    assert_eq!(render_text(&v), "-7");

    let v = convert(&RemoteValue::Bool(true)).unwrap();
    assert_eq!(render_text(&v), "true");
    let v = convert(&RemoteValue::Bool(false)).unwrap();
    assert_eq!(render_text(&v), "false");

    let v = convert(&RemoteValue::Null(true)).unwrap();
    assert!(matches!(v, ItemValue::Null));
    assert_eq!(render_text(&v), "null");

    let v = convert(&RemoteValue::S("verbatim text".to_string())).unwrap();
    assert_eq!(render_text(&v), "verbatim text");
}

#[test]
fn extreme_numbers_round_trip() {
    let v = convert(&RemoteValue::N("9223372036854775807".to_string())).unwrap();
    assert!(matches!(v, ItemValue::Number(i64::MAX)));
    assert_eq!(render_text(&v), "9223372036854775807");

    let v = convert(&RemoteValue::N("-9223372036854775808".to_string())).unwrap();
    assert!(matches!(v, ItemValue::Number(i64::MIN)));
    assert_eq!(render_text(&v), "-9223372036854775808");
}

#[test]
fn unparsable_numeric_text_becomes_zero() {
    for s in ["abc", "", "-", "12x", "9223372036854775808", "1.5"] {
        let v = convert(&RemoteValue::N(s.to_string())).unwrap();
        assert!(matches!(v, ItemValue::Number(0)), "input {:?}", s);
    }
}

#[test]
fn unrecognized_variant_is_a_conversion_error() {
    assert!(matches!(
        convert(&RemoteValue::Other),
        Err(ConvertError::UnrecognizedVariant)
    ));
    // An unrecognized variant nested anywhere fails the whole conversion.
    let nested = RemoteValue::L(vec![RemoteValue::Bool(true), RemoteValue::Other]);
    assert!(convert(&nested).is_err());
    let nested = RemoteValue::M(vec![("k".to_string(), RemoteValue::Other)]);
    assert!(convert(&nested).is_err());
}

#[test]
fn nested_conversion_preserves_structure_and_depth() {
    // Depth three: a map holding a list holding scalars.
    let remote = RemoteValue::M(vec![
        ("name".to_string(), RemoteValue::S("widget".to_string())),
        (
            "sizes".to_string(),
            RemoteValue::L(vec![
                RemoteValue::N("1".to_string()),
                RemoteValue::N("2".to_string()),
            ]),
        ),
    ]);
    let v = convert(&remote).unwrap();
    match v {
        ItemValue::Dict(pairs) => {
            assert_eq!(pairs.len(), 2);
            assert_eq!(pairs[0].0, "name");
            assert!(matches!(&pairs[0].1, ItemValue::Text(s) if s == "widget"));
            assert_eq!(pairs[1].0, "sizes");
            match &pairs[1].1 {
                ItemValue::List(items) => {
                    assert_eq!(items.len(), 2);
                    assert!(matches!(items[0], ItemValue::Number(1)));
                    assert!(matches!(items[1], ItemValue::Number(2)));
                }
                other => panic!("expected a nested list, got {:?}", other),
            }
        }
        other => panic!("expected a dictionary, got {:?}", other),
    }
}

#[test]
fn collections_render_as_fixed_placeholders() {
    let v = convert(&RemoteValue::L(vec![])).unwrap();
    assert_eq!(render_text(&v), "List");
    let v = convert(&RemoteValue::M(vec![])).unwrap();
    assert_eq!(render_text(&v), "Map...");
}

#[test]
fn headers_come_from_the_first_row() {
    let rows = vec![
        TableRow {
            data: vec![
                KV { key: "id".to_string(), value: ItemValue::Number(1) },
                KV { key: "name".to_string(), value: ItemValue::Text("a".to_string()) },
            ],
        },
        TableRow {
            data: vec![KV { key: "other".to_string(), value: ItemValue::Null }],
        },
    ];
    let t = table_from_rows(rows);
    assert_eq!(t.headers, vec!["id".to_string(), "name".to_string()]);
    assert_eq!(t.rows.len(), 2);
    // The second row keeps its own keys: no uniform schema is forced.
    assert_eq!(t.rows[1].data[0].key, "other");
}

#[test]
fn empty_batch_gives_empty_table() {
    let t = table_from_rows(vec![]);
    assert!(t.headers.is_empty());
    assert!(t.rows.is_empty());
}

#[test]
fn default_table_is_empty() {
    let t = NebTable::default();
    assert!(t.headers.is_empty());
    assert!(t.rows.is_empty());
}

#[test]
fn tick_timeout_counts_down_the_interval() {
    assert_eq!(tick_timeout(TICK_RATE_MS, 0), 200);
    assert_eq!(tick_timeout(200, 50), 150);
    assert_eq!(tick_timeout(200, 200), 0);
    assert_eq!(tick_timeout(200, 250), 0);
}

#[test]
fn tick_fires_once_the_interval_has_elapsed() {
    assert!(!tick_due(200, 0));
    assert!(!tick_due(200, 199));
    assert!(tick_due(200, 200));
    assert!(tick_due(200, 1000));
}

#[test]
fn library_state_reachable_from_tests() {
    let app = App::new();
    assert!(app.table_list.is_empty());
}

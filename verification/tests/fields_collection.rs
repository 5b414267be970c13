use av::fields::{AttrFields, FieldCollection};
use av::tokens::Ident;

/// A field name and a note on where it was written; only the name takes
/// part in lookups.
type TestKey = (&'static str, &'static str);

fn test_key(name: &'static str, origin: &'static str) -> TestKey {
    (name, origin)
}

fn fields(pairs: Vec<(TestKey, i32)>) -> FieldCollection<TestKey, i32> {
    match FieldCollection::try_from_pairs(pairs) {
        Ok(fields) => fields,
        Err(key) => panic!("unexpected duplicate field `{}`", key.0),
    }
}

#[test]
fn duplicate_detection_reports_the_second_occurrence_in_source_order() {
    let pairs = vec![
        (test_key("one", "first one"), 1),
        (test_key("two", "first two"), 2),
        (test_key("one", "second one"), 3),
        (test_key("two", "second two"), 4),
    ];

    let duplicate = match FieldCollection::try_from_pairs(pairs) {
        Ok(_) => panic!("one should be duplicated"),
        Err(key) => key,
    };
    assert_eq!(duplicate.0, "one");
    assert_eq!(duplicate.1, "second one");
}

#[test]
fn batch_duplicate_detection_checks_existing_fields_and_the_batch() {
    let mut fields = fields(vec![
        (test_key("one", "stored one"), 1),
        (test_key("two", "stored two"), 2),
    ]);
    let conflicts_with_existing = vec![
        (test_key("three", "new three"), 3),
        (test_key("two", "new two"), 4),
    ];
    let conflicts_with_batch = vec![
        (test_key("three", "first three"), 3),
        (test_key("four", "new four"), 4),
        (test_key("three", "second three"), 5),
    ];

    let existing_duplicate = fields
        .insert_many(conflicts_with_existing)
        .expect_err("two conflicts with an existing field");
    assert_eq!(existing_duplicate.1, "new two");
    let batch_duplicate = fields
        .insert_many(conflicts_with_batch)
        .expect_err("three occurs twice in the batch");
    assert_eq!(batch_duplicate.1, "second three");
    assert_eq!(
        fields.len(),
        2,
        "validation must not mutate existing fields"
    );

    let valid = vec![
        (test_key("three", "new three"), 3),
        (test_key("four", "new four"), 4),
    ];
    fields.insert_many(valid).expect("batch is unique");
    assert_eq!(fields.len(), 4);
}

#[test]
fn single_insert_rejects_duplicates_without_replacing_the_original() {
    let mut fields = fields(vec![(test_key("one", "stored one"), 1)]);

    let duplicate = fields
        .insert(test_key("one", "new one"), 10)
        .expect_err("one already exists");
    assert_eq!(duplicate.1, "new one");
    assert_eq!(fields.get("one"), Some(&1));

    fields
        .insert(test_key("two", "new two"), 2)
        .expect("two is unique");
    assert_eq!(fields.get("two"), Some(&2));
}

#[test]
fn lookup_accepts_string_like_names_and_preserves_order() {
    let mut fields = fields(vec![
        (test_key("one", "source one"), 10),
        (test_key("two", "source two"), 20),
        (test_key("three", "source three"), 30),
    ]);

    assert_eq!(fields.len(), 3);
    assert!(fields.contains(String::from("one")));
    assert!(fields.contains_all(&["one", "three"]));
    assert!(!fields.contains_all(&["one", "missing"]));
    assert!(fields.contains_any(&["missing", "two"]));
    assert!(!fields.contains_any(&["missing", "absent"]));
    assert_eq!(fields.get("two"), Some(&20));
    assert_eq!(fields.get("missing"), None);
    assert_eq!(
        fields.get_many(&[String::from("three"), String::from("missing")]),
        vec![Some(&30), None]
    );

    *fields.get_mut("two").expect("two exists") = 21;
    for (_, value) in fields.iter_mut() {
        *value += 1;
    }

    let ordered = fields
        .iter()
        .into_iter()
        .map(|(key, value)| (key.0, *value))
        .collect::<Vec<_>>();
    assert_eq!(ordered, vec![("one", 11), ("two", 22), ("three", 31)]);
}

#[test]
fn unknown_lookup_reports_the_first_disallowed_key() {
    let fields = fields(vec![
        (test_key("known", "known source"), 1),
        (test_key("first_unknown", "first unknown source"), 2),
        (test_key("second_unknown", "second unknown source"), 3),
    ]);

    assert_eq!(
        fields
            .first_not_in(&["known"])
            .expect("an unknown field exists")
            .1,
        "first unknown source"
    );
    assert!(
        fields
            .first_not_in(&["known", "first_unknown", "second_unknown"])
            .is_none()
    );
}

#[test]
fn replace_and_upsert_preserve_existing_keys_and_positions() {
    let mut fields = fields(vec![
        (test_key("one", "original one"), 1),
        (test_key("two", "original two"), 2),
    ]);

    assert_eq!(fields.replace("one", 10), Some(1));
    assert_eq!(fields.replace("missing", 99), None);
    assert_eq!(
        fields.upsert(test_key("two", "replacement two"), 20),
        Some(2)
    );
    assert_eq!(fields.upsert(test_key("three", "new three"), 30), None);

    let ordered = fields
        .iter()
        .into_iter()
        .map(|(key, value)| (key.0, key.1, *value))
        .collect::<Vec<_>>();
    assert_eq!(
        ordered,
        vec![
            ("one", "original one", 10),
            ("two", "original two", 20),
            ("three", "new three", 30),
        ]
    );
}

#[test]
fn remove_operations_follow_request_order() {
    let mut fields = fields(vec![
        (test_key("one", "source one"), 1),
        (test_key("two", "source two"), 2),
        (test_key("three", "source three"), 3),
    ]);

    assert_eq!(fields.remove("two"), Some(2));
    assert_eq!(
        fields.remove_many(&["three", "missing", "one", "one"]),
        vec![Some(3), None, Some(1), None]
    );
    assert!(fields.is_empty());
}

#[test]
fn clear_removes_all_fields() {
    let mut fields = fields(vec![
        (test_key("one", "source one"), 1),
        (test_key("two", "source two"), 2),
    ]);

    fields.clear();

    assert!(fields.is_empty());
    assert_eq!(fields.len(), 0);
}

#[test]
fn empty_attr_fields_exercises_the_production_api_without_proc_macro_handles() {
    let mut fields = AttrFields::<i32>::try_from(Vec::new()).expect("empty fields are valid");

    assert!(fields.is_empty());
    assert_eq!(fields.len(), 0);
    assert!(!fields.contains("missing"));
    assert!(fields.contains_all::<&str>(&[]));
    assert!(!fields.contains_any::<String>(&[]));
    assert_eq!(fields.get("missing"), None);
    assert_eq!(fields.get_many(&["missing"]), vec![None]);
    assert_eq!(fields.get_mut("missing"), None);
    assert_eq!(fields.replace("missing", 1), None);
    assert_eq!(fields.remove("missing"), None);
    assert_eq!(fields.remove_many(&["missing"]), vec![None]);
    assert_eq!(fields.take_optional("missing"), None);
    assert_eq!(fields.take_optional_many(&["missing"]), vec![None]);
    assert_eq!(
        fields
            .take_required_many::<&str>(&[])
            .expect("requesting no required fields succeeds"),
        Vec::<i32>::new()
    );
    fields
        .insert_many(Vec::new())
        .expect("empty batch is valid");
    fields.clear();
    fields
        .reject_unknown::<&str>(&[])
        .expect("empty fields contain no unknown names");

    let pairs: Vec<(Ident, i32)> = fields.into();
    assert!(pairs.is_empty());

    let fields = AttrFields::<i32>::try_from(Vec::new()).expect("empty fields are valid");
    assert_eq!(fields.into_iter().count(), 0);

    AttrFields::<i32>::try_from(Vec::new())
        .expect("empty fields are valid")
        .reject_rest()
        .expect("empty fields leave no remainder");
}

#[test]
fn iter_mut_writes_through_each_item_and_keeps_keys() {
    let mut fields = fields(vec![
        (test_key("one", "source one"), 1),
        (test_key("two", "source two"), 2),
        (test_key("three", "source three"), 3),
    ]);
    {
        let mut items = fields.iter_mut();
        assert_eq!(items.len(), 3);
        *items[0].1 = 10;
        *items[2].1 = 30;
        *items[2].1 += 1;
    }
    let ordered = fields
        .iter()
        .into_iter()
        .map(|(key, value)| (key.0, key.1, *value))
        .collect::<Vec<_>>();
    assert_eq!(
        ordered,
        vec![("one", "source one", 10), ("two", "source two", 2), ("three", "source three", 31)]
    );
}

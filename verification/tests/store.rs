use diary::date::Date;
use diary::entry::{Entry, EntryStore};
use diary::measure::Measurement;

fn ymd(year: i32, month: u8, day: u8) -> Date {
    Date::from_calendar_date(year, month, day).unwrap()
}

fn note(date: Date, content: &str) -> Entry {
    Entry::new(date, content.to_string(), None, None)
}

fn dates(store: &EntryStore) -> Vec<Date> {
    store.entries().iter().map(|e| e.date).collect()
}

#[test]
fn new_store_is_empty() {
    let store = EntryStore::new();
    assert_eq!(store.len(), 0);
    assert!(store.is_empty());
    assert!(store.get(ymd(2024, 1, 1)).is_none());
    assert!(store.entries().is_empty());
}

#[test]
fn upsert_keeps_entries_sorted_by_date() {
    let mut store = EntryStore::new();
    store.upsert(note(ymd(2024, 3, 10), "c"));
    store.upsert(note(ymd(2024, 3, 1), "a"));
    store.upsert(note(ymd(2024, 3, 20), "e"));
    store.upsert(note(ymd(2024, 3, 5), "b"));
    store.upsert(note(ymd(2024, 3, 15), "d"));
    assert_eq!(
        dates(&store),
        vec![
            ymd(2024, 3, 1),
            ymd(2024, 3, 5),
            ymd(2024, 3, 10),
            ymd(2024, 3, 15),
            ymd(2024, 3, 20)
        ]
    );
    let texts: Vec<&str> = store.entries().iter().map(|e| e.content.as_str()).collect();
    assert_eq!(texts, vec!["a", "b", "c", "d", "e"]);
    assert_eq!(store.len(), 5);
    assert!(!store.is_empty());
}

#[test]
fn upsert_replaces_the_entry_of_the_same_day() {
    let mut store = EntryStore::new();
    store.upsert(note(ymd(2024, 3, 1), "a"));
    store.upsert(note(ymd(2024, 3, 2), "first"));
    store.upsert(note(ymd(2024, 3, 3), "c"));
    store.upsert(Entry::new(
        ymd(2024, 3, 2),
        "second".to_string(),
        Some(Measurement::from_milli(80_000)),
        None,
    ));
    assert_eq!(store.len(), 3);
    let e = store.get(ymd(2024, 3, 2)).unwrap();
    assert_eq!(e.content, "second");
    assert_eq!(e.weight_kg, Some(Measurement::from_milli(80_000)));
    assert_eq!(e.waist_cm, None);
    assert_eq!(dates(&store), vec![ymd(2024, 3, 1), ymd(2024, 3, 2), ymd(2024, 3, 3)]);
}

#[test]
fn get_returns_the_most_recent_upsert_for_each_day() {
    let mut store = EntryStore::new();
    let days = [5u8, 3, 9, 3, 1, 9, 5, 7, 3];
    for (i, d) in days.iter().enumerate() {
        store.upsert(note(ymd(2024, 5, *d), &format!("v{}", i)));
        let listed = dates(&store);
        for pair in listed.windows(2) {
            assert!(pair[0] < pair[1]);
        }
    }
    assert_eq!(store.len(), 5);
    assert_eq!(store.get(ymd(2024, 5, 1)).unwrap().content, "v4");
    assert_eq!(store.get(ymd(2024, 5, 3)).unwrap().content, "v8");
    assert_eq!(store.get(ymd(2024, 5, 5)).unwrap().content, "v6");
    assert_eq!(store.get(ymd(2024, 5, 7)).unwrap().content, "v7");
    assert_eq!(store.get(ymd(2024, 5, 9)).unwrap().content, "v5");
    assert!(store.get(ymd(2024, 5, 2)).is_none());
    assert!(store.get(ymd(2024, 5, 10)).is_none());
    assert!(store.get(ymd(2024, 4, 30)).is_none());
}

#[test]
fn upsert_is_idempotent() {
    let mut once = EntryStore::new();
    once.upsert(note(ymd(2024, 3, 1), "a"));
    once.upsert(note(ymd(2024, 3, 3), "c"));
    once.upsert(note(ymd(2024, 3, 2), "b"));
    let mut twice = EntryStore::new();
    twice.upsert(note(ymd(2024, 3, 1), "a"));
    twice.upsert(note(ymd(2024, 3, 3), "c"));
    twice.upsert(note(ymd(2024, 3, 2), "b"));
    twice.upsert(note(ymd(2024, 3, 2), "b"));
    assert_eq!(once, twice);
}

#[test]
fn get_finds_only_the_exact_day() {
    let mut store = EntryStore::new();
    store.upsert(note(ymd(2024, 3, 2), "b"));
    assert!(store.get(ymd(2024, 3, 1)).is_none());
    assert!(store.get(ymd(2024, 3, 3)).is_none());
    assert_eq!(store.get(ymd(2024, 3, 2)).unwrap().date, ymd(2024, 3, 2));
    let j = ymd(2024, 3, 2).to_julian_day();
    assert_eq!(store.on_day(j).unwrap().content, "b");
    assert!(store.on_day(j + 1).is_none());
    assert!(store.on_day(i32::MAX).is_none());
    assert!(store.on_day(i32::MIN).is_none());
}

#[test]
fn store_built_from_unordered_entries_is_sorted() {
    let store = EntryStore::from_entries(vec![
        note(ymd(2024, 3, 3), "c"),
        note(ymd(2024, 3, 1), "a"),
        note(ymd(2024, 3, 3), "c again"),
        note(ymd(2024, 3, 2), "b"),
    ]);
    assert_eq!(dates(&store), vec![ymd(2024, 3, 1), ymd(2024, 3, 2), ymd(2024, 3, 3)]);
    assert_eq!(store.get(ymd(2024, 3, 3)).unwrap().content, "c again");
}

#[test]
fn store_rebuilt_from_its_own_entries_is_equal() {
    for n in [0usize, 1, 2, 7, 40] {
        let mut store = EntryStore::new();
        for i in 0..n {
            let day = ymd(2024, 1, 1).checked_add_days((i as i32 * 37) % 101).unwrap();
            store.upsert(Entry::new(
                day,
                format!("entry {}", i),
                if i % 2 == 0 { Some(Measurement::from_milli(70_000 + i as u32)) } else { None },
                if i % 3 == 0 { Some(Measurement::from_milli(90_000 + i as u32)) } else { None },
            ));
        }
        let copy: Vec<Entry> = store.entries().iter().cloned().collect();
        let rebuilt = EntryStore::from_entries(copy);
        assert_eq!(rebuilt, store);
        assert_eq!(rebuilt.len(), store.len());
    }
}

#[test]
fn empty_entries_are_recognised() {
    let d = ymd(2024, 3, 1);
    assert!(Entry::new(d, String::new(), None, None).is_empty());
    assert!(!Entry::new(d, "x".to_string(), None, None).is_empty());
    assert!(!Entry::new(d, String::new(), Some(Measurement::from_milli(0)), None).is_empty());
    assert!(!Entry::new(d, String::new(), None, Some(Measurement::from_milli(1))).is_empty());
}

#[test]
fn a_cloned_entry_is_equal() {
    let e = Entry::new(
        ymd(2024, 3, 1),
        "text".to_string(),
        Some(Measurement::from_milli(80_500)),
        Some(Measurement::from_milli(90_250)),
    );
    assert_eq!(e.clone(), e);
}

fn to_json(store: &EntryStore) -> serde_json::Value {
    let number = |m: Option<Measurement>| match m {
        Some(m) => serde_json::Value::from(m.milli() as f64 / 1000.0),
        None => serde_json::Value::Null,
    };
    let mut list = Vec::new();
    for e in store.entries() {
        let (year, month, day) = e.date.to_calendar_date();
        let mut object = serde_json::Map::new();
        object.insert("content".to_string(), serde_json::Value::from(e.content.clone()));
        object.insert("weight_kg".to_string(), number(e.weight_kg));
        object.insert("waist_cm".to_string(), number(e.waist_cm));
        object.insert(
            "date".to_string(),
            serde_json::Value::from(vec![year as i64, month as i64, day as i64]),
        );
        list.push(serde_json::Value::Object(object));
    }
    serde_json::Value::Array(list)
}

fn from_json(value: &serde_json::Value) -> EntryStore {
    let number = |v: &serde_json::Value| {
        v.as_f64().map(|x| Measurement::from_milli((x * 1000.0).round() as u32))
    };
    let mut entries = Vec::new();
    for object in value.as_array().unwrap() {
        let date = object["date"].as_array().unwrap();
        entries.push(Entry::new(
            Date::from_calendar_date(
                date[0].as_i64().unwrap() as i32,
                date[1].as_i64().unwrap() as u8,
                date[2].as_i64().unwrap() as u8,
            )
            .unwrap(),
            object["content"].as_str().unwrap().to_string(),
            number(&object["weight_kg"]),
            number(&object["waist_cm"]),
        ));
    }
    EntryStore::from_entries(entries)
}

#[test]
fn serialized_store_is_read_back_equal() {
    for n in [0usize, 1, 3, 25] {
        let mut store = EntryStore::new();
        for i in 0..n {
            let day = ymd(2023, 12, 20).checked_add_days((i as i32 * 17) % 53).unwrap();
            store.upsert(Entry::new(
                day,
                format!("line one\n\"quoted\" \u{e9} {}", i),
                if i % 2 == 0 { Some(Measurement::from_milli(80_500 + i as u32)) } else { None },
                if i % 3 == 0 { Some(Measurement::from_milli(91_250 - i as u32)) } else { None },
            ));
        }
        let text = serde_json::to_string_pretty(&to_json(&store)).unwrap();
        let read: serde_json::Value = serde_json::from_str(&text).unwrap();
        let back = from_json(&read);
        assert_eq!(back, store);
        assert_eq!(back.len(), store.len());
    }
}

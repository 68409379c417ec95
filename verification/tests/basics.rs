//! Text, ids, paths, maps and sorting.
use ridal_server::elevation::Elevation;
use ridal_server::identity::{
    check_slug, DisplayName, GroupId, GroupName, RadargramId, RevisionId, UserId,
};
use ridal_server::paths::{plain_relative, FilePath};
use ridal_server::properties::GroupChoice;
use ridal_server::sorting::sort;
use ridal_server::text::{
    chars_of, decimal_text, decimal_usize, equal, join, less, parse_u64, trim,
};
use ridal_server::text_map::TextMap;

#[test]
fn ids_are_slugs() {
    for good in ["a", "line-01", "x_y", "0", "-a", "dronbreen-2022"] {
        assert!(check_slug(good), "{good}");
        assert_eq!(RadargramId::new(good).unwrap().as_str(), good);
        assert_eq!(UserId::new(good).unwrap().to_text(), good);
        assert!(GroupId::new(good).unwrap().same(&GroupId::new(good).unwrap()));
    }
    for bad in ["", "_none", "A", "a b", "a/b", "a.b", "..", "ø", "a\n"] {
        assert!(!check_slug(bad), "{bad}");
        let message = RadargramId::new(bad).unwrap_err();
        assert!(message.starts_with(&format!("'{bad}' is not a valid id")));
        assert!(UserId::new(bad).is_err() && GroupId::new(bad).is_err());
    }
}

#[test]
fn a_name_gives_an_ascii_id() {
    let id = |name: &str| GroupId::from_fallback(name).map(|id| id.to_text());
    assert_eq!(id("Drønbreen 2022"), Ok("dronbreen-2022".to_string()));
    assert_eq!(id("Kroppbreen"), Ok("kroppbreen".to_string()));
    assert_eq!(id("  Ænes -- Þór! "), Ok("aenes-thor".to_string()));
    assert_eq!(id("STRASSE ß"), Ok("strasse-ss".to_string()));
    assert!(id("").is_err());
    assert!(id("!!").is_err());
    // What comes out is an id, and its own id.
    let slug = id("Drønbreen 2022").unwrap();
    assert!(check_slug(&slug));
    assert_eq!(id(&slug), Ok(slug));
}

#[test]
fn a_name_is_what_is_left_when_trimmed() {
    assert_eq!(DisplayName::from_input("  A name ").unwrap().as_str(), "A name");
    assert!(DisplayName::from_input("   ").is_none());
    assert!(GroupName::from_input("").is_none());
    assert_eq!(GroupName::from_input("\u{a0}x\u{3000}").unwrap().to_text(), "x");
}

#[test]
fn a_revision_is_named_by_what_is_in_it() {
    let id = RadargramId::new("line-01").unwrap();
    let revision = RevisionId::fingerprint_v1(&id, "2020-01-01T00:00:00Z");
    let expected = blake3::hash(b"line-01\n2020-01-01T00:00:00Z").to_hex().to_string();
    assert_eq!(revision.as_str(), expected);
    assert_eq!(revision.as_str().len(), 64);
    assert!(revision.same(&RevisionId::fingerprint_v1(&id, "2020-01-01T00:00:00Z")));
    assert!(!revision.same(&RevisionId::fingerprint_v1(&id, "2020-01-02T00:00:00Z")));
    let other = RadargramId::new("line-02").unwrap();
    assert!(!revision.same(&RevisionId::fingerprint_v1(&other, "2020-01-01T00:00:00Z")));
}

#[test]
fn text_is_ordered_by_its_bytes() {
    let words = ["", "a", "a-b", "a/b", "aa", "b", "z", "é", "Z", "\u{10000}", "\u{ffff}", "\u{800}"];
    for a in words {
        for b in words {
            assert_eq!(less(a, b), a < b, "{a} {b}");
            assert_eq!(equal(a, b), a == b);
        }
    }
}

#[test]
fn text_is_taken_apart_and_put_together() {
    let pieces = |row: &[&str]| row.iter().map(|p| p.to_string()).collect::<Vec<String>>();
    assert_eq!(join(&pieces(&[]), ", "), "");
    assert_eq!(join(&pieces(&["a"]), ", "), "a");
    assert_eq!(join(&pieces(&["a", "", "c"]), ", "), "a, , c");
    assert_eq!(chars_of("aé"), vec!['a', 'é']);
    for text in ["", " ", " a b\t", "\u{2003}x", "x\u{85}", "y\u{200b}"] {
        assert_eq!(trim(text), text.trim(), "{text:?}");
    }
}

#[test]
fn numbers_are_read_and_written() {
    for n in [0, 1, 9, 10, 12345, u64::MAX - 1, u64::MAX] {
        assert_eq!(decimal_text(n), n.to_string());
        assert_eq!(parse_u64(&n.to_string()), Some(n));
    }
    assert_eq!(decimal_usize(42), "42");
    for text in ["", "+", "-1", "1 ", "+7", "007", "18446744073709551616", "1_000", "٣", "0x10"] {
        assert_eq!(parse_u64(text), text.parse::<u64>().ok(), "{text}");
    }
}

fn path(parts: &[&str]) -> FilePath {
    FilePath { parts: parts.iter().map(|part| part.to_string()).collect() }
}

#[test]
fn paths_are_compared_by_component() {
    let data = path(&["/", "data"]);
    let below = path(&["/", "data", "x", "a.nc"]);
    assert!(below.starts_with(&data) && data.starts_with(&data));
    assert!(!path(&["/", "data-old"]).starts_with(&data));
    assert!(!data.starts_with(&below));
    assert_eq!(below.strip_prefix(&data), Some(path(&["x", "a.nc"])));
    assert_eq!(data.strip_prefix(&below), None);
    assert_eq!(below.parent(), path(&["/", "data", "x"]));
    assert_eq!(path(&[]).parent(), path(&[]));
    assert_eq!(data.child("y"), path(&["/", "data", "y"]));
    assert!(data.same(&path(&["/", "data"])) && !data.same(&below));
    assert_eq!(below.to_text(), "/data/x/a.nc");
    assert_eq!(path(&["x", "a.nc"]).to_text(), "x/a.nc");
    assert_eq!(below.joined_text(), "//data/x/a.nc");
}

#[test]
fn a_plain_relative_path_has_names() {
    let names = |text: &str| plain_relative(text);
    assert_eq!(names("a/b.nc"), Some(vec!["a".to_string(), "b.nc".to_string()]));
    assert_eq!(names("a/./b//c"), Some(vec!["a".to_string(), "b".to_string(), "c".to_string()]));
    assert_eq!(names(""), Some(vec![]));
    assert_eq!(names("a/.."), None);
    assert_eq!(names("./a"), None);
    assert_eq!(names("/a"), None);
}

#[test]
fn a_text_map_keeps_its_keys_in_order() {
    let mut map: TextMap<String, u32> = TextMap::new();
    for (i, key) in ["m", "b", "z", "b", "a"].iter().enumerate() {
        map.insert(key.to_string(), i as u32);
    }
    let keys: Vec<&str> = (0..map.len()).map(|i| map.key_at(i).as_str()).collect();
    assert_eq!(keys, vec!["a", "b", "m", "z"]);
    assert_eq!(map.get("b"), Some(&3), "the later value counts");
    assert_eq!(map.get("c"), None);
    assert!(map.contains_key("z"));
    assert_eq!(*map.value_at(2), 0);
    assert_eq!(map.remove("m"), Some(0));
    assert_eq!(map.remove("m"), None);
    assert_eq!(map.len(), 3);
    let copy = map.clone();
    assert_eq!(copy, map);
}

#[test]
fn sorting_leaves_equals_as_they_stood() {
    let choice = |id: &str, name: &str| GroupChoice { id: id.to_string(), name: name.to_string() };
    let row = vec![
        choice("1", "b"),
        choice("2", "a"),
        choice("3", "b"),
        choice("4", "a"),
        choice("5", "B"),
    ];
    let sorted = sort(row);
    let ids: Vec<&str> = sorted.iter().map(|c| c.id.as_str()).collect();
    assert_eq!(ids, vec!["5", "2", "4", "1", "3"]);
}

#[test]
fn elevations_stand_in_the_order_of_their_numbers() {
    let numbers = [
        f64::NEG_INFINITY,
        -1e300,
        -2.5,
        -f64::MIN_POSITIVE,
        -0.0,
        0.0,
        5e-324,
        1.0,
        9000.0,
        f64::INFINITY,
        f64::NAN,
    ];
    for a in numbers {
        for b in numbers {
            let (x, y) = (Elevation { bits: a.to_bits() }, Elevation { bits: b.to_bits() });
            assert_eq!(x.reaches(y), a >= b, "{a} {b}");
        }
    }
}

use housejoin::feature::{decimal_zero, get_node_point, get_tag_kv, get_xml_attr, Coordinate, Element, FeatureError, XmlEvent};
use housejoin::index::{get_houseseeks, get_nodepoints, SeekIndexBuilder};
use housejoin::join::{hash_match, probe};
use housejoin::materialize::{xml_seek_to_attrs, ElementReader};
use housejoin::normalize::{norm_houseid, remove_entities, remove_punctuation, to_lower_text};
use housejoin::record::{assemble_house, csv_record_to_attrs, get_row_key, postcode_among, RowError};
use kdtree::distance::squared_euclidean;
use kdtree::KdTree;
use std::collections::HashMap;

fn el(name: &str, attrs: &[(&str, &str)]) -> Element {
    Element {
        name: name.to_string(),
        attrs: attrs.iter().map(|(k, v)| (k.to_string(), v.to_string())).collect(),
    }
}

fn tag(k: &str, v: &str) -> XmlEvent {
    XmlEvent::Empty(el("tag", &[("k", k), ("v", v)]))
}

fn nd(r: &str) -> XmlEvent {
    XmlEvent::Empty(el("nd", &[("ref", r)]))
}

fn end(name: &str) -> XmlEvent {
    XmlEvent::End(name.to_string())
}

fn row(street: &str, id: &str, postcode: &str, price: &str) -> Vec<String> {
    let cols = [
        "{REC-1}", price, "2019-01-01 00:00", postcode, "D", "N", "F", id, "FLAT 1", street,
        "TOWNSIDE", "READING", "READING", "BERKSHIRE", "A", "A",
    ];
    cols.iter().map(|c| c.to_string()).collect()
}

fn positions(n: usize) -> Vec<u64> {
    (1..=n as u64).map(|i| i * 10).collect()
}

fn as_map(pairs: &[(String, String)]) -> HashMap<String, String> {
    let mut m = HashMap::new();
    for (k, v) in pairs {
        m.insert(k.clone(), v.clone());
    }
    m
}

fn nearest_postcodes(refs: &[(&str, f64, f64)], lat: f64, lon: f64) -> Vec<String> {
    let mut tree: KdTree<f64, String, Vec<f64>> = KdTree::new(2);
    for (p, la, lo) in refs {
        tree.add(vec![*la, *lo], p.to_string()).unwrap();
    }
    tree.nearest(&[lat, lon], 8, &squared_euclidean)
        .unwrap()
        .iter()
        .map(|(_, p)| (*p).clone())
        .collect()
}

#[test]
fn punctuation_and_case_do_not_change_the_key() {
    assert_eq!(norm_houseid("Main St.", "10"), norm_houseid("MAIN ST", "10"));
    assert_eq!(norm_houseid("Main St.", "10"), "main st:10");
}

#[test]
fn terminated_entity_is_dropped() {
    let k = norm_houseid("Tom & Jerry; House", "1");
    assert_eq!(k, "tom  house:1");
    assert!(!k.contains("jerry"));
    assert!(k.contains("house"));
}

#[test]
fn unterminated_entity_is_kept() {
    let k = norm_houseid("Tom & Jerry", "1");
    assert!(k.contains("jerry"));
    assert_eq!(k, "tom  jerry:1");
}

#[test]
fn entity_removal_cases() {
    assert_eq!(remove_entities("Tom &amp; Jerry"), "Tom  Jerry");
    assert_eq!(remove_entities("a&b"), "a&b");
    assert_eq!(remove_entities("x;y"), "x;y");
    assert_eq!(remove_entities(""), "");
    assert_eq!(remove_entities("&a;&b;c"), "c");
}

#[test]
fn punctuation_and_lowercase() {
    assert_eq!(remove_punctuation("St. John's Rd, 12-a"), "St Johns Rd 12a");
    assert_eq!(to_lower_text("ÀBC déF"), "Àbc déf");
}

#[test]
fn empty_inputs_give_a_bare_separator() {
    assert_eq!(norm_houseid("", ""), ":");
}

#[test]
fn seek_offset_is_the_position_before_the_feature() {
    let events = vec![
        XmlEvent::Other,
        XmlEvent::Start(el("osm", &[])),
        XmlEvent::Start(el("way", &[("id", "10")])),
        tag("addr:street", "High Street"),
        tag("addr:housenumber", "5"),
        tag("addr:housename", "Rose Cottage"),
        end("way"),
        XmlEvent::Start(el("node", &[("id", "3"), ("lat", "1"), ("lon", "2")])),
        tag("addr:street", "Low Road"),
        tag("addr:housenumber", "7"),
        end("node"),
        end("osm"),
        XmlEvent::Eof,
    ];
    let pos = positions(events.len());
    let index = get_houseseeks(&events, &pos);
    assert_eq!(index.get("high street:5"), Some(&20));
    assert_eq!(index.get("high street:rose cottage"), Some(&20));
    assert_eq!(index.get("low road:7"), Some(&70));
    assert_eq!(index.len(), 3);
}

#[test]
fn first_address_tag_wins_and_last_element_wins() {
    let events = vec![
        XmlEvent::Start(el("way", &[])),
        tag("addr:street", "A"),
        tag("addr:street", "B"),
        tag("addr:housenumber", "1"),
        end("way"),
        XmlEvent::Start(el("way", &[])),
        tag("addr:street", "a"),
        tag("addr:housenumber", "1"),
        end("way"),
        XmlEvent::Eof,
    ];
    let pos = positions(events.len());
    let index = get_houseseeks(&events, &pos);
    assert_eq!(index.get("a:1"), Some(&50));
    assert_eq!(index.get("b:1"), None);
    assert_eq!(index.len(), 1);
}

#[test]
fn tags_outside_features_are_ignored() {
    let mut b = SeekIndexBuilder::new();
    b.step(&tag("addr:street", "A"), 10);
    b.step(&tag("addr:housenumber", "1"), 20);
    b.step(&end("way"), 30);
    let index = b.into_index();
    assert_eq!(index.len(), 0);
}

#[test]
fn join_keeps_stream_order_and_skips_misses() {
    let events = vec![
        XmlEvent::Start(el("way", &[])),
        tag("addr:street", "a"),
        tag("addr:housenumber", "1"),
        end("way"),
        XmlEvent::Eof,
    ];
    let index = get_houseseeks(&events, &positions(events.len()));
    assert_eq!(index.get("a:1"), Some(&0));
    let rows = vec![("a:1", "R1"), ("b:2", "R2"), ("a:1", "R3")];
    let hits: Vec<(u64, &str, String)> = rows
        .into_iter()
        .filter_map(|(k, r)| probe(&index, k.to_string(), r))
        .collect();
    assert_eq!(hits, vec![(0, "R1", "a:1".to_string()), (0, "R3", "a:1".to_string())]);
    let keys = vec!["a:1".to_string(), "b:2".to_string(), "a:1".to_string()];
    assert_eq!(hash_match(&index, &keys), vec![(0, 0), (0, 2)]);
}

#[test]
fn validator_accepts_a_postcode_at_the_point() {
    let refs = [
        ("AB1 2CD", 51.5, -0.1),
        ("AB1 2CE", 51.51, -0.1),
        ("AB1 2CF", 51.52, -0.1),
        ("ZZ9 9ZZ", 55.0, 1.0),
    ];
    let nearest = nearest_postcodes(&refs, 51.5, -0.1);
    assert!(postcode_among(&nearest, "AB1 2CD"));
    assert!(!postcode_among(&nearest, "XY1 1XY"));
    assert!(!postcode_among(&Vec::new(), "AB1 2CD"));
}

#[test]
fn unresolved_references_are_dropped() {
    let events = vec![
        XmlEvent::Empty(el("node", &[("id", "r2"), ("lat", "51.5"), ("lon", "-0.1")])),
        XmlEvent::Eof,
    ];
    let points = get_nodepoints(&events).unwrap();
    let way = vec![
        XmlEvent::Start(el("way", &[])),
        nd("r1"),
        nd("r2"),
        end("way"),
        tag("ignored", "after close"),
    ];
    let (attrs, nodes) = xml_seek_to_attrs(&way, &points).unwrap();
    assert!(attrs.is_empty());
    assert_eq!(nodes.len(), 1);
    assert_eq!(nodes[0].lat, "51.5");
    assert_eq!(nodes[0].lon, "-0.1");
}

#[test]
fn node_element_carries_its_own_coordinate() {
    let points = get_nodepoints(&vec![XmlEvent::Eof]).unwrap();
    let mut r = ElementReader::new();
    r.step(&XmlEvent::Start(el("node", &[("id", "7"), ("lat", "53.36"), ("lon", "-2.15")]))).unwrap();
    r.step(&tag("addr:city", "Reading")).unwrap();
    r.step(&tag("addr:city", "Leeds")).unwrap();
    assert!(!r.is_done());
    r.step(&end("node")).unwrap();
    assert!(r.is_done());
    let (attrs, nodes) = r.finish(&points);
    assert_eq!(as_map(&attrs).get("addr:city").map(|s| s.as_str()), Some("Leeds"));
    assert_eq!(nodes.len(), 1);
    assert_eq!(nodes[0].lat, "53.36");
}

#[test]
fn bad_coordinate_is_an_error() {
    let events = vec![XmlEvent::Start(el("node", &[("id", "1"), ("lat", "north"), ("lon", "1")]))];
    assert_eq!(get_nodepoints(&events).err(), Some(FeatureError::BadCoordinate));
    assert!(xml_seek_to_attrs(&events, &get_nodepoints(&vec![]).unwrap()).is_err());
}

#[test]
fn zero_coordinates_are_absent() {
    let e = el("node", &[("id", "1"), ("lat", "0.0"), ("lon", "-0")]);
    assert!(get_node_point(&e).unwrap().is_none());
    let e = el("node", &[("lat", "1.5"), ("lon", "2")]);
    assert!(get_node_point(&e).unwrap().is_none());
    let e = el("node", &[("id", "4"), ("lat", "2.5")]);
    let (_, c) = get_node_point(&e).unwrap().unwrap();
    assert_eq!(c.lat, "2.5");
    assert_eq!(c.lon, "0");
    let e = el("node", &[("id", "5"), ("lon", "0.0")]);
    assert!(get_node_point(&e).unwrap().is_none());
    let e = el("node", &[("id", "9"), ("lat", "0"), ("lon", "2.5")]);
    let (id, c) = get_node_point(&e).unwrap().unwrap();
    assert_eq!(id, "9");
    assert_eq!(c.lat, "0");
    assert_eq!(c.lon, "2.5");
}

#[test]
fn decimal_texts() {
    assert_eq!(decimal_zero("0"), Some(true));
    assert_eq!(decimal_zero("-0.000"), Some(true));
    assert_eq!(decimal_zero("53.3636318117118"), Some(false));
    assert_eq!(decimal_zero("+.5"), Some(false));
    assert_eq!(decimal_zero("."), None);
    assert_eq!(decimal_zero("1.2.3"), None);
    assert_eq!(decimal_zero(""), None);
    assert_eq!(decimal_zero("1e5"), None);
}

#[test]
fn tag_and_attribute_readers() {
    let e = el("tag", &[("k", "addr:city"), ("v", "Reading")]);
    assert_eq!(get_tag_kv(&e), Some(("addr:city".to_string(), "Reading".to_string())));
    assert_eq!(get_tag_kv(&el("tag", &[("k", "a"), ("v", "")])), None);
    assert_eq!(get_tag_kv(&el("tag", &[("v", "x")])), None);
    let e = el("nd", &[("x", "1"), ("ref", "42"), ("ref", "43")]);
    assert_eq!(get_xml_attr(&e, "ref"), Some("42".to_string()));
    assert_eq!(get_xml_attr(&e, "id"), None);
}

#[test]
fn row_projection_decodes_categories() {
    let r = row("HIGH STREET", "5", "AB1 2CD", "250000");
    let attrs = as_map(&csv_record_to_attrs(&r).unwrap());
    assert_eq!(attrs.len(), 11);
    assert_eq!(attrs["price_paid"], "250000");
    assert_eq!(attrs["property_type"], "Detached");
    assert_eq!(attrs["new_build"], "No");
    assert_eq!(attrs["freehold"], "Yes");
    assert_eq!(attrs["addr:secondary"], "FLAT 1");
    assert_eq!(attrs["addr:county"], "BERKSHIRE");
    assert!(!attrs.contains_key("id"));
    assert!(!attrs.contains_key("addr:street"));
    let mut r2 = r.clone();
    r2[4] = "F".to_string();
    r2[5] = "Y".to_string();
    r2[6] = "L".to_string();
    let attrs = as_map(&csv_record_to_attrs(&r2).unwrap());
    assert_eq!(attrs["property_type"], "Flat / Maisonette");
    assert_eq!(attrs["new_build"], "Yes");
    assert_eq!(attrs["freehold"], "No");
}

#[test]
fn row_errors() {
    let short: Vec<String> = vec!["a".to_string(); 10];
    assert_eq!(csv_record_to_attrs(&short).err(), Some(RowError::TooFewColumns));
    assert_eq!(get_row_key(&short).err(), Some(RowError::TooFewColumns));
    let bad = row("HIGH STREET", "5", "AB1 2CD", "12k");
    assert_eq!(csv_record_to_attrs(&bad).err(), Some(RowError::BadPrice));
    assert_eq!(get_row_key(&row("High St.", "5A", "X", "1")).unwrap(), "high st:5a");
    let sample: Vec<String> = "{X},250000,2019-01-01 00:00,AB1 2CD,D,N,F,5,,HIGH STREET,,READING,READING,BERKSHIRE,A,A"
        .split(',')
        .map(|c| c.to_string())
        .collect();
    assert_eq!(get_row_key(&sample).unwrap(), "high street:5");
}

#[test]
fn transaction_values_win_on_shared_keys() {
    let r = row("HIGH STREET", "5", "AB1 2CD", "100");
    let feature = vec![
        ("addr:postcode".to_string(), "OLD 1AA".to_string()),
        ("building".to_string(), "house".to_string()),
    ];
    let nodes = vec![Coordinate { lat: "1".to_string(), lon: "2".to_string() }];
    let nearest = vec!["AB1 2CD".to_string()];
    let house = assemble_house(feature, nodes, &r, &nearest).unwrap().unwrap();
    let m = as_map(&house.attrs);
    assert_eq!(m["addr:postcode"], "AB1 2CD");
    assert_eq!(m["building"], "house");
    assert_eq!(house.nodes.len(), 1);
}

#[test]
fn rejected_postcode_gives_no_record() {
    let point = || vec![Coordinate { lat: "51.5".to_string(), lon: "-0.1".to_string() }];
    let r = row("HIGH STREET", "5", "AB1 2CD", "100");
    let nearest = vec!["ZZ1 1ZZ".to_string()];
    assert!(assemble_house(vec![], point(), &r, &nearest).unwrap().is_none());
    let bad = row("HIGH STREET", "5", "AB1 2CD", "");
    assert_eq!(assemble_house(vec![], point(), &bad, &vec!["AB1 2CD".to_string()]).err(), Some(RowError::BadPrice));
}

#[test]
fn building_without_coordinates_gives_no_record() {
    let r = row("HIGH STREET", "5", "AB1 2CD", "100");
    let nearest = vec!["AB1 2CD".to_string()];
    assert!(assemble_house(vec![], vec![], &r, &nearest).unwrap().is_none());
    let short: Vec<String> = vec!["a".to_string(); 4];
    assert!(assemble_house(vec![], vec![], &short, &nearest).unwrap().is_none());
}

#[test]
fn one_way_one_row_end_to_end() {
    let events = vec![
        XmlEvent::Other,
        XmlEvent::Start(el("osm", &[])),
        XmlEvent::Empty(el("node", &[("id", "1"), ("lat", "51.5"), ("lon", "-0.1")])),
        XmlEvent::Empty(el("node", &[("id", "2"), ("lat", "51.5001"), ("lon", "-0.1001")])),
        XmlEvent::Start(el("way", &[("id", "10")])),
        nd("1"),
        nd("2"),
        tag("addr:street", "High Street"),
        tag("addr:housenumber", "5"),
        end("way"),
        end("osm"),
        XmlEvent::Eof,
    ];
    let pos = positions(events.len());
    let index = get_houseseeks(&events, &pos);
    let points = get_nodepoints(&events).unwrap();

    let r = row("high street", "5", "AB1 2CD", "250000");
    let key = get_row_key(&r).unwrap();
    let (offset, r, _) = probe(&index, key, r).unwrap();
    assert_eq!(offset, 40);

    let at = pos.iter().position(|p| *p == offset).unwrap() + 1;
    let rest: Vec<XmlEvent> = events.into_iter().skip(at).collect();
    let (attrs, nodes) = xml_seek_to_attrs(&rest, &points).unwrap();
    assert_eq!(nodes.len(), 2);

    let lat: f64 = nodes[0].lat.parse().unwrap();
    let lon: f64 = nodes[0].lon.parse().unwrap();
    let nearest = nearest_postcodes(&[("AB1 2CD", 51.5, -0.1), ("AB1 9XX", 52.0, -0.5)], lat, lon);
    let house = assemble_house(attrs, nodes, &r, &nearest).unwrap().unwrap();
    let m = as_map(&house.attrs);
    assert_eq!(m["addr:street"], "High Street");
    assert_eq!(m["price_paid"], "250000");
    let coords: Vec<(&str, &str)> = house.nodes.iter().map(|c| (c.lat.as_str(), c.lon.as_str())).collect();
    assert_eq!(coords, vec![("51.5", "-0.1"), ("51.5001", "-0.1001")]);
}

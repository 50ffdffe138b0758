use a_star_wallpaper::cache::{
    cache_path, cache_path_for_area, check_for_file, fetch_or_load_plan, get_query,
    query_for_area, random_cache_entry, CacheAction,
};
use a_star_wallpaper::geo::{resolve, Area, GeoRecord, OsmType};
use a_star_wallpaper::numfmt::u64_to_string;
use a_star_wallpaper::PipelineError;

fn record(osm_type: OsmType, name: &str, kind: &str, osm_id: i64) -> GeoRecord {
    GeoRecord {
        osm_type,
        display_name: String::from(name),
        kind: String::from(kind),
        osm_id,
    }
}

#[test]
fn resolve_keeps_only_relations() {
    let records = vec![
        record(OsmType::Relation, "Kyoto", "city", 1),
        record(OsmType::Node, "Kyoto Station", "station", 77),
    ];
    let areas = resolve("Kyoto", &records).unwrap();
    assert_eq!(areas.len(), 1);
    assert_eq!(areas[0].key, "Kyoto");
    assert_eq!(areas[0].name, "Kyoto");
    assert_eq!(areas[0].kind, "city");
    assert_eq!(areas[0].area_id, 1 + 3_600_000_000);
}

#[test]
fn resolve_preserves_response_order() {
    let records = vec![
        record(OsmType::Relation, "Springfield, Illinois", "city", 10),
        record(OsmType::Way, "Main Street", "road", 11),
        record(OsmType::Relation, "Springfield, Missouri", "city", 12),
    ];
    let areas = resolve("Springfield", &records).unwrap();
    assert_eq!(areas.len(), 2);
    assert_eq!(areas[0].name, "Springfield, Illinois");
    assert_eq!(areas[0].area_id, 3_600_000_010);
    assert_eq!(areas[1].name, "Springfield, Missouri");
    assert_eq!(areas[1].area_id, 3_600_000_012);
    assert_eq!(areas[0].key, "Springfield");
    assert_eq!(areas[1].key, "Springfield");
}

#[test]
fn resolve_without_relation_is_not_found() {
    let records = vec![
        record(OsmType::Node, "Somewhere", "hamlet", 5),
        record(OsmType::Other, "Elsewhere", "locality", 6),
    ];
    let err = resolve("Somewhere", &records).unwrap_err();
    assert_eq!(err, PipelineError::NotFound);
}

#[test]
fn resolve_empty_response_is_not_found() {
    let err = resolve("Atlantis", &Vec::new()).unwrap_err();
    assert_eq!(err, PipelineError::NotFound);
}

#[test]
fn decimal_formatting() {
    assert_eq!(u64_to_string(0), "0");
    assert_eq!(u64_to_string(42), "42");
    assert_eq!(u64_to_string(3_600_000_001), "3600000001");
}

#[test]
fn query_embeds_area_id() {
    let q = get_query("3600000001");
    assert_eq!(
        q,
        "[timeout:900][out:json];area(3600000001);(._; )->.area;(way[highway~'^(((motorway|trunk|primary|secondary|tertiary)(_link)?)|unclassified|residential|living_street|service|track)$'](area.area);node(w););out skel;"
    );
}

#[test]
fn query_for_area_formats_the_id() {
    let area = Area {
        key: String::from("Kyoto"),
        name: String::from("Kyoto"),
        kind: String::from("city"),
        area_id: 3_600_000_001,
    };
    assert_eq!(query_for_area(&area), get_query("3600000001"));
}

#[test]
fn cache_path_is_deterministic() {
    let p = cache_path("Kyoto", 3_600_000_001);
    assert_eq!(p, "tmp/overpass/Kyoto_3600000001.json");
    assert_eq!(p, cache_path("Kyoto", 3_600_000_001));
}

#[test]
fn cache_path_for_area_uses_name_and_id() {
    let area = Area {
        key: String::from("Kyoto"),
        name: String::from("Kyoto"),
        kind: String::from("city"),
        area_id: 3_600_000_001,
    };
    assert_eq!(cache_path_for_area(&area), "tmp/overpass/Kyoto_3600000001.json");
}

#[test]
fn plan_never_fetches_on_a_hit() {
    assert_eq!(fetch_or_load_plan(true), CacheAction::LoadCached);
    assert_eq!(fetch_or_load_plan(false), CacheAction::FetchAndStore);
}

#[test]
fn missing_file_is_reported_absent() {
    assert!(!check_for_file("tmp/overpass/no_such_cache_entry_here.json"));
}

#[test]
fn random_pick_on_empty_set_fails() {
    let entries: Vec<String> = Vec::new();
    let err = random_cache_entry(&entries).unwrap_err();
    assert_eq!(err, PipelineError::NoCacheEntries);
}

#[test]
fn random_pick_returns_a_member() {
    let entries = vec![
        String::from("tmp/overpass/A_1.json"),
        String::from("tmp/overpass/B_2.json"),
        String::from("tmp/overpass/C_3.json"),
    ];
    for _ in 0..32 {
        let picked = random_cache_entry(&entries).unwrap();
        assert!(entries.iter().any(|e| e == picked));
    }
}

#[test]
fn random_pick_of_singleton_is_that_entry() {
    let entries = vec![String::from("tmp/overpass/Only_9.json")];
    let picked = random_cache_entry(&entries).unwrap();
    assert_eq!(picked, "tmp/overpass/Only_9.json");
}

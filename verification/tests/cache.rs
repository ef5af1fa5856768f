use t_rex::cache::{Cache, Nocache};
use t_rex::filecache::Filecache;

#[test]
fn test_nocache_always_misses() {
    let cache = Nocache;
    assert_eq!(cache.read("tileset", 0, 1, 2), None);
    assert_eq!(cache.contains("tileset", 0, 1, 2), false);
}

#[test]
fn test_nocache_write_succeeds_and_stores_nothing() {
    let cache = Nocache;
    assert!(cache.write("tileset", 0, 1, 2, "0123456789".as_bytes()).is_ok());
    assert_eq!(cache.read("tileset", 0, 1, 2), None);
    assert_eq!(cache.contains("tileset", 0, 1, 2), false);
}

#[test]
fn test_path_for_tile() {
    let cache = Filecache { basepath: String::from("/tmp/t_rex_test") };
    assert_eq!(
        cache.path_for_tile("tileset", 0, 1, 2),
        "/tmp/t_rex_test/tileset/0/000/001/000/002.pbf"
    );
}

#[test]
fn test_path_for_tile_shards_large_coordinates() {
    let cache = Filecache { basepath: String::from("base") };
    assert_eq!(
        cache.path_for_tile("osm", 14, 8714, 10301),
        "base/osm/14/008/714/010/301.pbf"
    );
    assert_eq!(
        cache.path_for_tile("osm", 255, 65535, 1000),
        "base/osm/255/065/535/001/000.pbf"
    );
}

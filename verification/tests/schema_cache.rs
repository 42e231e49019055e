use wafer_core::database::codec::JsonColumns;
use wafer_core::database::schema_cache::{SchemaCache, TableColumns};

fn cols(names: &[&str]) -> TableColumns {
    TableColumns {
        names: names.iter().map(ToString::to_string).collect(),
        json: JsonColumns::none(),
    }
}

#[test]
fn presence_miss_then_hit() {
    let mut cache = SchemaCache::new();
    let gen0 = cache.generation();
    assert!(!cache.table_known_present("users"), "cold miss");
    cache.mark_table_present_if_gen("users", gen0);
    assert!(cache.table_known_present("users"));
}

#[test]
fn columns_miss_then_hit() {
    let mut cache = SchemaCache::new();
    let gen0 = cache.generation();
    assert_eq!(cache.columns("users"), None);
    cache.set_columns_if_gen("users", cols(&["id", "name"]), gen0);
    assert_eq!(cache.columns("users"), Some(cols(&["id", "name"])));
}

#[test]
fn non_empty_columns_imply_existence() {
    let mut cache = SchemaCache::new();
    let gen = cache.generation();
    cache.set_columns_if_gen("users", cols(&["id"]), gen);
    assert!(
        cache.table_known_present("users"),
        "a listed column set proves the table exists"
    );
}

#[test]
fn empty_columns_are_not_cached_and_do_not_mark_presence() {
    let mut cache = SchemaCache::new();
    let gen = cache.generation();
    cache.set_columns_if_gen("ghost", cols(&[]), gen);
    assert!(
        !cache.table_known_present("ghost"),
        "an empty column list proves nothing about the table"
    );
    assert_eq!(
        cache.columns("ghost"),
        None,
        "a missing table's empty column list is not cached, so the table's \
         columns are read once a migration creates it"
    );
}

#[test]
fn primary_key_miss_then_hit_and_dropped_by_invalidate() {
    let mut c = SchemaCache::new();
    let gen = c.generation();
    assert_eq!(c.primary_key("t"), None);
    c.set_primary_key_if_gen("t", vec!["id".into()], gen);
    assert_eq!(c.primary_key("t"), Some(vec!["id".to_string()]));
    assert!(c.table_known_present("t"), "a key proves the table");
    c.set_primary_key_if_gen("later", Vec::new(), gen);
    assert_eq!(
        c.primary_key("later"),
        None,
        "a missing table's key is not cached"
    );
    c.mark_table_present_if_gen("keyless", gen);
    c.set_primary_key_if_gen("keyless", Vec::new(), gen);
    assert_eq!(c.primary_key("keyless"), Some(Vec::new()));
    let stale = c.generation();
    c.invalidate("t");
    assert_eq!(c.primary_key("t"), None);
    c.set_primary_key_if_gen("t", vec!["old".into()], stale);
    assert_eq!(c.primary_key("t"), None, "a raced write-back is dropped");
}

#[test]
fn generates_id_is_cached_only_for_a_table_known_to_exist() {
    let mut c = SchemaCache::new();
    let gen = c.generation();
    assert_eq!(c.generates_id("t"), None);
    c.set_generates_id_if_gen("t", true, gen);
    assert_eq!(c.generates_id("t"), Some(true));
    assert!(
        c.table_known_present("t"),
        "a generated id proves the table"
    );
    c.set_generates_id_if_gen("later", false, gen);
    assert_eq!(c.generates_id("later"), None);
    c.mark_table_present_if_gen("later", gen);
    c.set_generates_id_if_gen("later", false, gen);
    assert_eq!(c.generates_id("later"), Some(false));
    let stale = c.generation();
    c.invalidate("t");
    assert_eq!(c.generates_id("t"), None);
    c.set_generates_id_if_gen("t", true, stale);
    assert_eq!(c.generates_id("t"), None, "a raced write-back is dropped");
}

#[test]
fn invalidate_drops_only_the_named_table() {
    let mut cache = SchemaCache::new();
    let gen = cache.generation();
    cache.set_columns_if_gen("a", cols(&["id"]), gen);
    cache.set_columns_if_gen("b", cols(&["id"]), gen);
    cache.invalidate("a");
    assert_eq!(cache.columns("a"), None, "invalidated");
    assert!(!cache.table_known_present("a"), "invalidated");
    assert_eq!(cache.columns("b"), Some(cols(&["id"])), "untouched");
}

#[test]
fn clear_drops_everything() {
    let mut cache = SchemaCache::new();
    let gen = cache.generation();
    cache.set_columns_if_gen("a", cols(&["id"]), gen);
    cache.mark_table_present_if_gen("b", gen);
    cache.clear();
    assert_eq!(cache.columns("a"), None);
    assert!(!cache.table_known_present("b"));
}

#[test]
fn invalidate_and_clear_bump_generation() {
    let mut cache = SchemaCache::new();
    let g0 = cache.generation();
    cache.invalidate("x");
    let g1 = cache.generation();
    assert_ne!(g1, g0, "invalidate must advance the generation");
    cache.clear();
    assert_ne!(cache.generation(), g1, "clear must advance the generation");
}

#[test]
fn stale_gen_write_back_is_discarded() {
    let mut cache = SchemaCache::new();
    let gen0 = cache.generation();
    cache.invalidate("orders");
    cache.mark_table_present_if_gen("orders", gen0);
    assert!(
        !cache.table_known_present("orders"),
        "a write-back racing an invalidate must be discarded, not cached"
    );
    cache.set_columns_if_gen("orders", cols(&["id"]), gen0);
    assert_eq!(
        cache.columns("orders"),
        None,
        "a stale column write-back must be discarded too"
    );
    let gen = cache.generation();
    cache.mark_table_present_if_gen("orders", gen);
    assert!(cache.table_known_present("orders"));
}

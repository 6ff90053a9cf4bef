//! Tests of collection membership files, the view catalog and the tag-count rollups.

use edms::membership::CollectionMembershipOps;
use edms::queries::QueryMap;
use edms::schema::initialize_schema;
use edms::store::EdmsError;
use edms::views::{ViewCatalogOps, ViewKind, ViewTagCountOps};
use tempfile::TempDir;

fn membership_queries() -> QueryMap {
    let mut q = QueryMap::new();
    let g = &mut q.collection_membership;
    g.insert("ADD".into(), "INSERT OR IGNORE INTO membership (endpoint_id) VALUES (?)".into());
    g.insert("REMOVE".into(), "DELETE FROM membership WHERE endpoint_id = ?".into());
    g.insert("LIST".into(), "SELECT endpoint_id, added_at FROM membership ORDER BY rowid".into());
    g.insert("COUNT".into(), "SELECT COUNT(*) FROM membership".into());
    g.insert("COUNT_TAGS_FOR_ENDPOINT".into(), "SELECT COUNT(*) FROM endpoint_tags WHERE endpoint_id = ?".into());
    g.insert("ADD_TAG".into(), "INSERT OR IGNORE INTO endpoint_tags (endpoint_id, tag) VALUES (?, ?)".into());
    g.insert("LIST_TAGS_FOR_ENDPOINT".into(), "SELECT tag FROM endpoint_tags WHERE endpoint_id = ? ORDER BY tag".into());
    g.insert("LIST_ALL_ENDPOINT_TAGS".into(), "SELECT endpoint_id, tag FROM endpoint_tags ORDER BY endpoint_id, tag".into());
    q
}

fn view_queries() -> QueryMap {
    let mut q = QueryMap::new();
    for (prefix, table) in [("COLLECTIONS", "collections"), ("WEBVIEW", "webview"), ("REPOVIEW", "repoview")] {
        let c = &mut q.catalog;
        c.insert(format!("{prefix}_CREATE"), format!("INSERT INTO {table} (name, file_path) SELECT ?1, ?2 WHERE ?3 IS NULL OR ?3 IS NOT NULL"));
        c.insert(format!("{prefix}_LIST"), format!("SELECT name, file_path, created_at, NULL FROM {table} ORDER BY name"));
        c.insert(format!("{prefix}_GET"), format!("SELECT name, file_path, created_at, NULL FROM {table} WHERE name = ?"));
        c.insert(format!("{prefix}_ANNOTATE"), format!("UPDATE {table} SET file_path = ? WHERE name = ?"));
        c.insert(format!("{prefix}_REMOVE"), format!("DELETE FROM {table} WHERE name = ?"));
        c.insert(format!("{prefix}_RENAME"), format!("UPDATE {table} SET name = ?, file_path = ? WHERE name = ?"));
        let t = &mut q.view_tag_counts;
        t.insert(
            format!("{prefix}_UPSERT"),
            format!("INSERT INTO {table}_tags (tagname, count) VALUES (?1, ?2) ON CONFLICT(tagname) DO UPDATE SET count = count + ?2"),
        );
        t.insert(format!("{prefix}_DELETE"), format!("DELETE FROM {table}_tags WHERE tagname = ?"));
        t.insert(format!("{prefix}_GET"), format!("SELECT count FROM {table}_tags WHERE tagname = ?"));
        t.insert(format!("{prefix}_LIST_TAGS"), format!("SELECT tagname, count FROM {table}_tags ORDER BY tagname"));
    }
    q
}

#[test]
fn membership_file_lifecycle() {
    let dir = TempDir::new().unwrap();
    let path = dir.path().join("col.sqlite");
    let mut ops = CollectionMembershipOps::new(path.to_str().unwrap(), membership_queries());
    ops.initialize().unwrap();
    ops.initialize().unwrap();

    assert_eq!(ops.add("E1").unwrap(), 1);
    assert_eq!(ops.add("E1").unwrap(), 0);
    assert_eq!(ops.add_batch(&["E2".into(), "E3".into(), "E1".into()]).unwrap(), 2);
    assert_eq!(ops.add_batch(&[]).unwrap(), 0);
    assert_eq!(ops.count().unwrap(), 3);
    assert_eq!(ops.list_ids().unwrap(), vec!["E1", "E2", "E3"]);
    assert_eq!(ops.list().unwrap().len(), 3);
    assert_eq!(ops.list_set().unwrap(), vec!["E1", "E2", "E3"]);
    assert_eq!(ops.remove("E2").unwrap(), 1);
    assert_eq!(ops.count().unwrap(), 2);

    assert_eq!(ops.add_tag("E1", "b").unwrap(), 1);
    assert_eq!(ops.add_tag("E1", "a").unwrap(), 1);
    assert_eq!(ops.add_tag("E3", "a").unwrap(), 1);
    assert_eq!(ops.count_tags_for_endpoint("E1").unwrap(), 2);
    assert_eq!(ops.list_tags_for_endpoint("E1").unwrap(), vec!["a", "b"]);
    assert_eq!(
        ops.list_all_endpoint_tags().unwrap(),
        vec![("E1".to_string(), "a".to_string()), ("E1".to_string(), "b".to_string()), ("E3".to_string(), "a".to_string())]
    );

    ops.shutdown().unwrap();
    assert!(matches!(ops.count(), Err(EdmsError::UnknownError)));
    assert!(matches!(ops.add_batch(&["E9".into()]), Err(EdmsError::UnknownError)));
}

#[test]
fn membership_missing_query() {
    let dir = TempDir::new().unwrap();
    let path = dir.path().join("col.sqlite");
    let mut ops = CollectionMembershipOps::new(path.to_str().unwrap(), QueryMap::new());
    ops.initialize().unwrap();
    assert!(matches!(ops.add("E1"), Err(EdmsError::UnknownError)));
    assert!(matches!(ops.list(), Err(EdmsError::UnknownError)));
    assert_eq!(ops.add_batch(&["E1".into()]).unwrap(), 1);
}

#[test]
fn catalog_and_tag_counts() {
    let dir = TempDir::new().unwrap();
    let path = dir.path().join("edms.db");
    let p = path.to_str().unwrap();

    let mut cat = ViewCatalogOps::new(p, view_queries());
    cat.initialize().unwrap();
    initialize_schema(&mut cat.core).unwrap();
    assert_eq!(cat.register(ViewKind::Collections, "alpha", Some("/c/alpha.sqlite"), None).unwrap(), 1);
    assert_eq!(cat.register(ViewKind::Webview, "site", None, None).unwrap(), 1);
    let got = cat.get(ViewKind::Collections, "alpha").unwrap().unwrap();
    assert_eq!(got.0, "alpha");
    assert_eq!(got.1.as_deref(), Some("/c/alpha.sqlite"));
    assert!(cat.get(ViewKind::Repoview, "alpha").unwrap().is_none());
    assert_eq!(cat.rename(ViewKind::Collections, "alpha", "beta", Some("/c/beta.sqlite")).unwrap(), 1);
    assert!(cat.get(ViewKind::Collections, "alpha").unwrap().is_none());
    assert_eq!(cat.annotate(ViewKind::Collections, "beta", "/c/other").unwrap(), 1);
    assert_eq!(cat.remove(ViewKind::Webview, "site").unwrap(), 1);
    cat.shutdown().unwrap();

    let mut tags = ViewTagCountOps::new(p, view_queries());
    tags.initialize().unwrap();
    assert_eq!(tags.create(ViewKind::Webview, "red", 2).unwrap(), 1);
    tags.create(ViewKind::Webview, "red", 3).unwrap();
    tags.create(ViewKind::Webview, "blue", 1).unwrap();
    assert_eq!(tags.list(ViewKind::Webview).unwrap(), vec![("blue".to_string(), 1), ("red".to_string(), 5)]);

    tags.rename(ViewKind::Webview, "red", "blue").unwrap();
    assert_eq!(tags.list(ViewKind::Webview).unwrap(), vec![("blue".to_string(), 6)]);
    tags.rename(ViewKind::Webview, "nothing", "blue").unwrap();
    assert_eq!(tags.list(ViewKind::Webview).unwrap(), vec![("blue".to_string(), 6)]);
    tags.create(ViewKind::Webview, "zero", 0).unwrap();
    tags.rename(ViewKind::Webview, "zero", "nil").unwrap();
    assert_eq!(tags.list(ViewKind::Webview).unwrap(), vec![("blue".to_string(), 6), ("nil".to_string(), 0)]);
    tags.delete(ViewKind::Webview, "nil").unwrap();

    tags.create(ViewKind::Repoview, "x", 1).unwrap();
    tags.create(ViewKind::Repoview, "y", 1).unwrap();
    assert_eq!(tags.delete_many(ViewKind::Repoview, &["x".into(), "y".into(), "z".into()]).unwrap(), 2);
    assert_eq!(tags.delete(ViewKind::Webview, "blue").unwrap(), 1);
    assert!(tags.list(ViewKind::Collections).unwrap().is_empty());
}

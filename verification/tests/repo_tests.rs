//! Tests of the collection export: the endpoints of a collection and the
//! markdown summary.

use edms::db::{create_collection_from_active, insert_bookmark_active, insert_endpoint, EndpointDto};
use edms::queries::QueryMap;
use edms::repo::{collection_endpoints, export_markdown};
use edms::schema::initialize_schema_from_core;
use edms::store::{EdmsCore, EdmsError};
use tempfile::TempDir;

fn queries() -> QueryMap {
    let mut q = QueryMap::new();
    q.endpoints.insert(
        "E1".into(),
        "INSERT INTO endpoints (endpoint_id, endpoint_str, annotation) VALUES (?, ?, ?)".into(),
    );
    q.endpoints.insert(
        "E2".into(),
        "SELECT rowid, endpoint_id, endpoint_str, annotation FROM endpoints WHERE endpoint_id = ?".into(),
    );
    q
}

fn ep(id: &str, s: &str, ann: Option<&str>) -> EndpointDto {
    EndpointDto { endpoint_id: id.into(), endpoint_str: s.into(), annotation: ann.map(|a| a.to_string()) }
}

#[test]
fn export_markdown_lists_each_endpoint() {
    let eps = vec![ep("E1", "https://a/x", Some("first")), ep("E2", "https://b/y", None)];
    let md = export_markdown("work", "work.zip", &eps);
    assert_eq!(
        md,
        "# Export: work\n\nGenerated as `work.zip`\n\n- **E1**: `https://a/x` — first\n- **E2**: `https://b/y`\n"
    );
}

#[test]
fn export_markdown_of_empty_collection_is_header_only() {
    let md = export_markdown("none", "none.zip", &[]);
    assert_eq!(md, "# Export: none\n\nGenerated as `none.zip`\n\n");
}

#[test]
fn collection_endpoints_reads_the_folder() {
    let dir = TempDir::new().unwrap();
    let path = dir.path().join("edms.db");
    let mut core = EdmsCore::new(path.to_str().unwrap());
    core.connect().unwrap();
    initialize_schema_from_core(&mut core).unwrap();
    let q = queries();
    insert_endpoint(&mut core, &q, &ep("E1", "https://a/x", Some("first"))).unwrap();
    insert_endpoint(&mut core, &q, &ep("E2", "https://b/y", None)).unwrap();
    insert_bookmark_active(&mut core, "E1", None).unwrap();
    insert_bookmark_active(&mut core, "E9", None).unwrap();
    assert_eq!(create_collection_from_active(&mut core, "work").unwrap(), 2);
    let got = collection_endpoints(&mut core, &q, "work").unwrap();
    assert_eq!(got.len(), 1);
    assert_eq!(got[0].endpoint_id, "E1");
    assert_eq!(got[0].endpoint_str, "https://a/x");
    assert_eq!(got[0].annotation.as_deref(), Some("first"));
    assert!(collection_endpoints(&mut core, &q, "missing").unwrap().is_empty());
}

#[test]
fn collection_endpoints_needs_a_connection() {
    let mut core = EdmsCore::new("/nonexistent/edms.db");
    let q = queries();
    assert!(matches!(collection_endpoints(&mut core, &q, "work"), Err(EdmsError::UnknownError)));
}

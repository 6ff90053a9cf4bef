//! Tests of the markdown index and of merging databases.

use edms::markdown::{markdown_meta, markdown_pages, EndpointRecord};
use edms::store::EdmsCore;
use edms::zipops::{merge_tables, read_table_names, MergeError};
use tempfile::TempDir;

fn rec(eid: u64) -> EndpointRecord {
    EndpointRecord {
        eid,
        eid_string: format!("E{:04}-AAA", eid),
        endpoint_type: "rest".into(),
        request_type: "GET".into(),
        annotation: "note".into(),
        tags: "a,b".into(),
        req_count: 3,
        res_count: 2,
    }
}

const HEADER: &str = "| EID | EID String | Type | Request Type | Annotation | Tags | Req/Res |\n|-----|------------|------|--------------|------------|------|---------|\n";

#[test]
fn markdown_pages_split_rows() {
    let recs: Vec<EndpointRecord> = (1..=5).map(rec).collect();
    let pages = markdown_pages(2, &recs);
    let names: Vec<&str> = pages.iter().map(|p| p.file_name.as_str()).collect();
    assert_eq!(names, vec!["endpoints-001.md", "endpoints-002.md", "endpoints-003.md"]);
    assert_eq!(
        pages[0].content,
        format!("{HEADER}| 1 | E0001-AAA | rest | GET | note | a,b | 3/2 |\n| 2 | E0002-AAA | rest | GET | note | a,b | 3/2 |\n")
    );
    assert_eq!(pages[2].content, format!("{HEADER}| 5 | E0005-AAA | rest | GET | note | a,b | 3/2 |\n"));

    let empty = markdown_pages(10, &[]);
    assert_eq!(empty.len(), 1);
    assert_eq!(empty[0].content, HEADER);

    let one = markdown_pages(0, &[rec(7)]);
    assert_eq!(one.len(), 1);

    let exact: Vec<EndpointRecord> = (1..=4).map(rec).collect();
    assert_eq!(markdown_pages(2, &exact).len(), 2);
    let many: Vec<EndpointRecord> = (1..=1000).map(rec).collect();
    let pages = markdown_pages(1, &many);
    assert_eq!(pages[99].file_name, "endpoints-100.md");
    assert_eq!(pages[8].file_name, "endpoints-009.md");
    assert_eq!(pages[9].file_name, "endpoints-010.md");
}

#[test]
fn markdown_meta_lines() {
    assert_eq!(markdown_meta(&["E1".into(), "E2".into()]), "- E1\n- E2\n");
    assert_eq!(markdown_meta(&[]), "");
}

#[test]
fn merging_tables_of_two_databases() {
    let dir = TempDir::new().unwrap();
    let a = dir.path().join("test1.sqlite");
    let b = dir.path().join("test2.sqlite");
    for (p, row) in [(&a, "INSERT INTO users VALUES (1, 'Alice')"), (&b, "INSERT INTO users VALUES (2, 'Bob')")] {
        let c = rusqlite::Connection::open(p).unwrap();
        c.execute("CREATE TABLE users (id INTEGER, name TEXT)", []).unwrap();
        c.execute(row, []).unwrap();
    }
    let merged = dir.path().join("merged.sqlite");
    let mut m = EdmsCore::new(merged.to_str().unwrap());
    m.connect().unwrap();
    for src in [&a, &b] {
        let mut sc = EdmsCore::new(src.to_str().unwrap());
        sc.connect().unwrap();
        let tables = read_table_names(&mut sc).unwrap();
        assert_eq!(tables, vec!["users".to_string()]);
        merge_tables(&mut m, src.to_str().unwrap(), &tables).unwrap();
    }
    m.disconnect().unwrap();
    let c = rusqlite::Connection::open(&merged).unwrap();
    let n: i64 = c.query_row("SELECT COUNT(*) FROM users", [], |r| r.get(0)).unwrap();
    assert_eq!(n, 2);

    let mut m = EdmsCore::new(merged.to_str().unwrap());
    m.connect().unwrap();
    match merge_tables(&mut m, a.to_str().unwrap(), &["bad name".to_string()]) {
        Err(MergeError::UnsafeIdentifier(t)) => assert_eq!(t, "bad name"),
        other => panic!("unexpected: {:?}", other),
    }
}

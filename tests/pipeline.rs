use tag_spider::pipeline::{encode_table, extraction_order, header_row, record_row, table_rows, Tally};
use tag_spider::records::{ContentKind, ContentRecord, UrlStatus};

fn rec(node: &str, url: &str) -> ContentRecord {
    ContentRecord {
        source_node: node.to_string(),
        breadcrumb_path: "Home > Docs".to_string(),
        kind: ContentKind::ExternalLink,
        url: url.to_string(),
        title: "T".to_string(),
        author: String::new(),
        file_type: "pdf".to_string(),
        size: "1 MB".to_string(),
        url_valid: UrlStatus::Error(404),
    }
}

#[test]
fn orchestrator_counts_and_keeps_going() {
    let found = vec!["A".to_string(), "B".to_string(), "C".to_string()];
    let order = extraction_order(&found, &"R".to_string());
    assert_eq!(order, vec!["A", "B", "C", "R"]);
    let mut tally = Tally::new();
    for node in &order[..3] {
        let outcome = match node.as_str() {
            "B" => Err("could not find folder".to_string()),
            n => Ok(vec![rec(n, "u1"), rec(n, "u2")]),
        };
        tally.record(outcome);
    }
    assert_eq!(tally.records.len(), 4);
    assert_eq!(tally.successful, 2);
    assert_eq!(tally.failed, 1);
    assert_eq!(order.last().unwrap(), "R");
    tally.record(Ok(vec![]));
    assert_eq!(tally.records.len(), 4);
    assert_eq!(tally.successful, 2);
    assert_eq!(tally.failed, 1);
    assert_eq!(tally.records[2].source_node, "C");
}

#[test]
fn extraction_order_of_no_descendants_is_root() {
    assert_eq!(extraction_order(&vec![], &"R".to_string()), vec!["R"]);
}

#[test]
fn header_and_row_columns() {
    assert_eq!(
        header_row(),
        vec!["Source Node", "Breadcrumb Path", "Content Type", "URL", "Title", "Author", "File Type", "Size", "URL Valid"]
    );
    assert_eq!(
        record_row(&rec("n", "https://a")),
        vec!["n", "Home > Docs", "ExternalLink", "https://a", "T", "", "pdf", "1 MB", "Error 404"]
    );
}

#[test]
fn table_has_one_header_then_rows() {
    let records = vec![rec("n1", "u1"), rec("n2", "u2")];
    let rows = table_rows(&records);
    assert_eq!(rows.len(), 3);
    assert_eq!(rows[0], header_row());
    assert_eq!(rows[1][0], "n1");
    assert_eq!(rows[2][3], "u2");
    assert_eq!(table_rows(&vec![]).len(), 1);
}

#[test]
fn table_encodes_as_csv() {
    let mut r = rec("n1", "https://a/?q=1,2");
    r.title = "say \"hi\"".to_string();
    let bytes = encode_table(&vec![r]);
    let text = String::from_utf8(bytes).unwrap();
    assert_eq!(
        text,
        "Source Node,Breadcrumb Path,Content Type,URL,Title,Author,File Type,Size,URL Valid\n\
         n1,Home > Docs,ExternalLink,\"https://a/?q=1,2\",\"say \"\"hi\"\"\",,pdf,1 MB,Error 404\n"
    );
}

#[test]
fn empty_table_is_header_line() {
    let text = String::from_utf8(encode_table(&vec![])).unwrap();
    assert_eq!(text.lines().count(), 1);
    assert!(text.starts_with("Source Node,"));
}

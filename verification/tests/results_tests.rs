use querydesk::AppState;
use querydesk::DbConnection;
use querydesk::ExecutionError;
use querydesk::RawCell;
use querydesk::RawColumn;
use querydesk::RawValue;
use querydesk::add_or_update;
use querydesk::build_dsn;
use querydesk::default_dark_theme;
use querydesk::export_csv;
use querydesk::find_connection;
use querydesk::html_escape;
use querydesk::nav_bar_html;
use querydesk::process_rows;
use querydesk::remove_query;
use querydesk::render_base_page;
use querydesk::render_table;
use querydesk::upsert_query;
use querydesk::SavedQuery;

fn text_cell(name: &str, value: &str) -> RawColumn {
    RawColumn {
        name: name.to_string(),
        cell: RawCell {
            wire_type: "TEXT".to_string(),
            text: Some(value.to_string()),
            raw: RawValue::NoRaw,
            int4: None,
            int2: None,
            int8: None,
            float8: None,
            boolean: None,
            json: None,
        },
    }
}

fn pairs(items: &[(&str, &str)]) -> Vec<(String, String)> {
    items.iter().map(|(k, v)| (k.to_string(), v.to_string())).collect()
}

#[test]
fn export_headers_are_alphabetical() {
    let cache = vec![pairs(&[("b", "2"), ("a", "1")])];
    let csv = export_csv(&cache);
    assert_eq!(csv, "a,b\n1,2\n");
}

#[test]
fn export_header_order_ignores_insertion_order() {
    let csv1 = export_csv(&vec![pairs(&[("b", "2"), ("a", "1")])]);
    let csv2 = export_csv(&vec![pairs(&[("a", "1"), ("b", "2")])]);
    assert_eq!(csv1, csv2);
    assert!(csv1.starts_with("a,b\n"));
}

#[test]
fn export_empty_cache_is_empty() {
    let cache: Vec<Vec<(String, String)>> = Vec::new();
    assert_eq!(export_csv(&cache), "");
}

#[test]
fn export_fills_missing_columns() {
    let cache = vec![pairs(&[("a", "1"), ("b", "2")]), pairs(&[("b", "9")])];
    let csv = export_csv(&cache);
    assert_eq!(csv, "a,b\n1,2\n,9\n");
}

#[test]
fn export_quotes_fields_that_need_it() {
    let cache = vec![pairs(&[("a", "x,y")])];
    let csv = export_csv(&cache);
    assert_eq!(csv, "a\n\"x,y\"\n");
}

#[test]
fn process_rows_single_value() {
    let rows = vec![vec![text_cell("x", "1")]];
    let (table, cache) = process_rows(&rows);
    assert_eq!(table.headers, vec!["x".to_string()]);
    assert_eq!(table.rows, vec![vec!["1".to_string()]]);
    assert_eq!(cache, vec![vec![("x".to_string(), "1".to_string())]]);
}

#[test]
fn process_rows_duplicate_names_keep_order_but_merge_in_cache() {
    let rows = vec![vec![text_cell("x", "1"), text_cell("x", "2")]];
    let (table, cache) = process_rows(&rows);
    assert_eq!(table.headers, vec!["x".to_string(), "x".to_string()]);
    assert_eq!(table.rows, vec![vec!["1".to_string(), "2".to_string()]]);
    assert_eq!(cache, vec![vec![("x".to_string(), "2".to_string())]]);
}

#[test]
fn process_rows_empty() {
    let rows: Vec<Vec<RawColumn>> = Vec::new();
    let (table, cache) = process_rows(&rows);
    assert!(table.headers.is_empty());
    assert!(table.rows.is_empty());
    assert!(cache.is_empty());
}

#[test]
fn render_table_placeholder() {
    let headers: Vec<String> = Vec::new();
    let rows: Vec<Vec<String>> = Vec::new();
    assert_eq!(render_table(&headers, &rows), "<pre>No output yet.</pre>");
}

#[test]
fn render_table_escapes_values() {
    let headers = vec!["<h>".to_string()];
    let rows = vec![vec!["a&b".to_string()]];
    let html = render_table(&headers, &rows);
    assert_eq!(
        html,
        "<table class=\"grid\"><thead><tr><th>&lt;h&gt;</th></tr></thead><tbody><tr><td>a&amp;b</td></tr></tbody></table>"
    );
}

#[test]
fn html_escape_minimal_entities() {
    assert_eq!(html_escape("<a href=\"x\">&'"), "&lt;a href=&quot;x&quot;&gt;&amp;&#x27;");
    assert_eq!(html_escape("plain"), "plain");
}

#[test]
fn dsn_from_descriptor() {
    let c = DbConnection {
        host: "localhost:5432".to_string(),
        db_name: "main".to_string(),
        user: "admin".to_string(),
        password: "pw".to_string(),
        nickname: "local".to_string(),
    };
    assert_eq!(build_dsn(&c), "postgres://admin:pw@localhost:5432/main");
}

#[test]
fn registry_lookup_and_upsert() {
    let mut conns: Vec<DbConnection> = Vec::new();
    let local = DbConnection {
        host: "h".to_string(),
        db_name: "d".to_string(),
        user: "u".to_string(),
        password: "p".to_string(),
        nickname: "local".to_string(),
    };
    add_or_update(&mut conns, local);
    assert_eq!(conns.len(), 1);
    assert!(find_connection("local", &conns).is_some());
    assert!(find_connection("missing", &conns).is_none());
    let replacement = DbConnection {
        host: "h2".to_string(),
        db_name: "d".to_string(),
        user: "u".to_string(),
        password: "p".to_string(),
        nickname: "local".to_string(),
    };
    add_or_update(&mut conns, replacement);
    assert_eq!(conns.len(), 1);
    assert_eq!(conns[0].host, "h2");
}

#[test]
fn end_to_end_without_a_database() {
    let mut state = AppState {
        shortcuts: Vec::new(),
        hidden_shortcuts: Vec::new(),
        work_shortcuts: Vec::new(),
        notes: Vec::new(),
        current_theme: default_dark_theme(),
        saved_themes: Vec::new(),
        connections: Vec::new(),
        last_results: Vec::new(),
    };
    let local = DbConnection {
        host: "localhost:5432".to_string(),
        db_name: "main".to_string(),
        user: "admin".to_string(),
        password: "pw".to_string(),
        nickname: "local".to_string(),
    };
    state.add_connection(local);
    assert!(state.lookup_connection("local").is_some());
    assert!(state.lookup_connection("missing").is_none());
    let msg = ExecutionError::ConnectionNotFound.to_message("missing");
    assert_eq!(
        msg,
        "<div style=\"color:var(--link-hover);\">Error: Connection 'missing' not found.</div>"
    );
    let rows = vec![vec![text_cell("x", "1")]];
    let (table, cache) = process_rows(&rows);
    assert_eq!(table.headers, vec!["x".to_string()]);
    assert_eq!(table.rows, vec![vec!["1".to_string()]]);
    state.store_results(cache);
    assert_eq!(state.export_last_results(), "x\n1\n");
}

#[test]
fn execution_error_messages() {
    let c = ExecutionError::ConnectError("refused <now>".to_string());
    assert_eq!(
        c.to_message("x"),
        "<div style=\"color:var(--link-hover);\">DB connect error: refused &lt;now&gt;</div>"
    );
    let q = ExecutionError::QueryError("bad & sql".to_string());
    assert_eq!(
        q.to_message("x"),
        "<div style=\"color:var(--link-hover);\">Query error: bad &amp; sql</div></div>"
    );
}

#[test]
fn saved_query_upsert_and_remove() {
    let mut queries: Vec<SavedQuery> = Vec::new();
    upsert_query(&mut queries, "q1".to_string(), "SELECT 1".to_string());
    upsert_query(&mut queries, "q2".to_string(), "SELECT 2".to_string());
    upsert_query(&mut queries, "q1".to_string(), "SELECT 10".to_string());
    assert_eq!(queries.len(), 2);
    assert_eq!(queries[0].sql, "SELECT 10");
    assert!(remove_query(&mut queries, "q1"));
    assert_eq!(queries.len(), 1);
    assert!(!remove_query(&mut queries, "q1"));
}

#[test]
fn base_page_wraps_body() {
    let theme = default_dark_theme();
    let page = render_base_page("My Title", "<p>body</p>", &theme);
    assert!(page.starts_with("<!DOCTYPE html>"));
    assert!(page.contains("<title>My Title</title>"));
    assert!(page.contains("--primary-bg: #2e2e2e;"));
    assert!(page.contains(nav_bar_html().as_str()));
    assert!(page.contains("<p>body</p>"));
    assert!(page.ends_with("</body>\n</html>"));
}

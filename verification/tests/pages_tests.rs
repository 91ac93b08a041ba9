use querydesk::DbConnection;
use querydesk::SavedQuery;
use querydesk::default_dark_theme;
use querydesk::not_found_page;
use querydesk::render_add_shortcut_button;
use querydesk::render_add_shortcut_modal;
use querydesk::render_connection_list;
use querydesk::render_query_view;
use querydesk::render_settings_page;
use querydesk::render_shortcuts_table;
use querydesk::render_table_list;
use querydesk::resolve_shortcut;
use querydesk::save_theme_entry;
use querydesk::lookup_theme;
use querydesk::Theme;

fn pairs(items: &[(&str, &str)]) -> Vec<(String, String)> {
    items.iter().map(|(k, v)| (k.to_string(), v.to_string())).collect()
}

#[test]
fn resolve_exact_match() {
    let s = pairs(&[("gh", "https://github.com")]);
    let none = pairs(&[]);
    let r = resolve_shortcut(&s, &none, &none, "gh");
    assert_eq!(r, Some("https://github.com".to_string()));
}

#[test]
fn resolve_prefers_visible_then_hidden_then_work() {
    let s = pairs(&[("k", "visible")]);
    let h = pairs(&[("k", "hidden"), ("h", "honly")]);
    let w = pairs(&[("k", "work"), ("w", "wonly")]);
    assert_eq!(resolve_shortcut(&s, &h, &w, "k"), Some("visible".to_string()));
    assert_eq!(resolve_shortcut(&s, &h, &w, "h"), Some("honly".to_string()));
    assert_eq!(resolve_shortcut(&s, &h, &w, "w"), Some("wonly".to_string()));
}

#[test]
fn resolve_appends_remainder_after_alias() {
    let s = pairs(&[("yt", "https://youtube.com"), ("docs", "https://docs.rs/")]);
    let none = pairs(&[]);
    assert_eq!(
        resolve_shortcut(&s, &none, &none, "yt/watch"),
        Some("https://youtube.com/watch".to_string())
    );
    assert_eq!(
        resolve_shortcut(&s, &none, &none, "docs/serde"),
        Some("https://docs.rs/serde".to_string())
    );
}

#[test]
fn resolve_unknown_is_none() {
    let s = pairs(&[("gh", "https://github.com")]);
    let none = pairs(&[]);
    assert_eq!(resolve_shortcut(&s, &none, &none, "nope"), None);
    assert_eq!(resolve_shortcut(&s, &none, &none, "nope/deeper"), None);
}

#[test]
fn shortcuts_table_groups_and_sorts() {
    let s = pairs(&[("zz", "https://b.example"), ("aa", "https://a.example"), (
        "mm",
        "https://b.example",
    )]);
    let html = render_shortcuts_table(&s);
    let a = html.find("https://a.example").unwrap();
    let b = html.find("https://b.example").unwrap();
    assert!(a < b, "urls must be in alphabetical order");
    let mm = html.find("/mm").unwrap();
    let zz = html.find("/zz").unwrap();
    assert!(mm < zz, "keys within a row must be sorted");
    assert!(html.contains("<td class=\"url\">https://b.example</td>"));
}

#[test]
fn shortcuts_table_escapes_keys_and_urls() {
    let s = pairs(&[("a<b", "https://x.example/?q=1&r=2")]);
    let html = render_shortcuts_table(&s);
    assert!(html.contains("a&lt;b"));
    assert!(html.contains("https://x.example/?q=1&amp;r=2"));
    assert!(!html.contains("a<b"));
}

#[test]
fn not_found_page_carries_table_button_and_modal() {
    let s = pairs(&[("gh", "https://github.com")]);
    let theme = default_dark_theme();
    let page = not_found_page(&s, &theme);
    assert!(page.contains("<title>Shortcut Not Found</title>"));
    assert!(page.contains("404"));
    assert!(page.contains("https://github.com"));
    assert!(page.contains(render_add_shortcut_button().as_str()));
    assert!(page.contains(render_add_shortcut_modal().as_str()));
    assert!(!page.contains("optional-button-placeholder"));
    assert!(page.ends_with("</body>\n</html>"));
}

#[test]
fn settings_page_marks_active_theme() {
    let theme = default_dark_theme();
    let saved = vec![
        ("Light".to_string(), default_dark_theme()),
        ("Dark Default".to_string(), default_dark_theme()),
    ];
    let html = render_settings_page(&theme, &saved);
    assert!(html.contains("<option value=\"Light\" >Light</option>"));
    assert!(html.contains("<option value=\"Dark Default\" selected>Dark Default</option>"));
    assert!(html.contains("value=\"#2e2e2e\""));
}

#[test]
fn connection_list_page_shows_links() {
    let conns = vec![DbConnection {
        host: "h<x>".to_string(),
        db_name: "d".to_string(),
        user: "u".to_string(),
        password: "p".to_string(),
        nickname: "local".to_string(),
    }];
    let theme = default_dark_theme();
    let page = render_connection_list(&conns, &theme);
    assert!(page.contains("<title>SQL Connections</title>"));
    assert!(page.contains("<li><a href=\"/sql/local\">local (d@h&lt;x&gt;)</a></li>"));
}

#[test]
fn table_list_items() {
    let tables = vec!["users".to_string(), "a<b".to_string()];
    let html = render_table_list(&tables);
    assert_eq!(
        html,
        "<li><a href=\"#\">users</a></li>\n<li><a href=\"#\">a&lt;b</a></li>"
    );
}

#[test]
fn query_view_page_lists_saved_queries() {
    let queries = vec![SavedQuery { name: "q<1>".to_string(), sql: "SELECT 1".to_string() }];
    let theme = default_dark_theme();
    let page = render_query_view("local", "<li>t</li>", &queries, &theme);
    assert!(page.contains("<title>SQL View: local</title>"));
    assert!(page.contains("data-sql=\"SELECT 1\""));
    assert!(page.contains("data-name=\"q&lt;1&gt;\""));
    assert!(page.contains("<ul id=\"table-list\"><li>t</li></ul>"));
    assert!(page.contains("name=\"connection\" value=\"local\""));
}

#[test]
fn theme_upsert_replaces_in_place_and_keeps_others() {
    let mut saved: Vec<(String, Theme)> = vec![
        ("Dark Default".to_string(), default_dark_theme()),
        ("Other".to_string(), default_dark_theme()),
    ];
    let mut updated = default_dark_theme();
    updated.primary_bg = "#101010".to_string();
    save_theme_entry(&mut saved, updated);
    assert_eq!(saved.len(), 2);
    assert_eq!(saved[0].0, "Dark Default");
    assert_eq!(saved[0].1.primary_bg, "#101010");
    assert_eq!(saved[1].0, "Other");
    assert_eq!(saved[1].1.primary_bg, "#2e2e2e");
    let found = lookup_theme(&saved, "Dark Default").unwrap();
    assert_eq!(found.primary_bg, "#101010");
    let mut fresh = default_dark_theme();
    fresh.name = "New".to_string();
    save_theme_entry(&mut saved, fresh);
    assert_eq!(saved.len(), 3);
    assert_eq!(saved[2].0, "New");
}

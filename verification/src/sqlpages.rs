use vstd::prelude::*;

use crate::escape::escape_minimal;
use crate::escape::html_escape;
use crate::htmlview::joined;
use crate::htmlview::lemma_joined_snoc;
use crate::models::ConnView;
use crate::models::DbConnection;
use crate::models::SavedQuery;
use crate::models::Theme;
use crate::models::conns_view;
use crate::pages::base_page_seq;
use crate::pages::render_base_page;
use crate::strorder::str_views;

verus! {

/// One saved connection as a list entry linking to its query view.
pub open spec fn conn_link_item(c: ConnView) -> Seq<char> {
    "<li><a href=\"/sql/"@ + escape_minimal(c.nickname) + "\">"@ + escape_minimal(c.nickname) + " ("@ + escape_minimal(
        c.db_name,
    ) + "@"@ + escape_minimal(c.host) + ")</a></li>"@
}

/// The body of the connection manager page: the add-connection form and
/// the list of saved connections.
pub open spec fn conn_list_body(conns: Seq<ConnView>) -> Seq<char> {
    "\n    <div class=\"sql-connections-page\">\n        <h1>SQL Connection Manager</h1>\n        \n        <div class=\"connection-form-container\">\n            <h2>Add New / Update Connection</h2>\n            <form method=\"POST\" action=\"/sql/add\" class=\"connection-form\">\n              <input name=\"nickname\" placeholder=\"Nickname (e.g., prod_db)\" required>\n              <input name=\"host\" placeholder=\"Host (e.g., localhost:5432)\" required>\n              <input name=\"db_name\" placeholder=\"Database Name\" required>\n              <input name=\"user\" placeholder=\"User\" required>\n              <input name=\"password\" type=\"password\" placeholder=\"Password\" required>\n              <button type=\"submit\">Save Connection</button>\n            </form>\n        </div>\n        \n        <div class=\"saved-connections-list\">\n            <h2>Saved Connections</h2>\n            <ul>"@ + joined(conns, |c: ConnView| conn_link_item(c), "\n"@) + "</ul>\n        </div>\n    </div>\n    <style>\n        .sql-connections-page {\n            max-width: 800px;\n            margin: 0 auto;\n        }\n        .connection-form-container {\n            background-color: var(--secondary-bg);\n            padding: 20px;\n            border-radius: 8px;\n            margin-bottom: 20px;\n            border: 1px solid var(--border-color);\n        }\n        .connection-form input {\n            width: 100%;\n            padding: 10px;\n            margin-bottom: 10px;\n            box-sizing: border-box;\n            background-color: var(--primary-bg);\n            color: var(--text-color);\n            border: 1px solid var(--border-color);\n            border-radius: 4px;\n        }\n        .connection-form button {\n            width: 100%;\n            padding: 10px;\n        }\n        .saved-connections-list ul {\n            list-style-type: none;\n            padding: 0;\n        }\n        .saved-connections-list li {\n            background-color: var(--tertiary-bg);\n            margin: 5px 0;\n            padding: 10px;\n            border-radius: 4px;\n        }\n    </style>\n    "@
}

/// The connection manager page.
pub open spec fn conn_list_page(conns: Seq<ConnView>, theme: Theme) -> Seq<char> {
    base_page_seq("SQL Connections"@, conn_list_body(conns), theme)
}

/// Render the connection manager page: the form to add or update a
/// connection and the list of saved ones, each field HTML-escaped.
pub fn render_connection_list(conns: &Vec<DbConnection>, current_theme: &Theme) -> (r: String)
    ensures
        r@ == conn_list_page(conns_view(conns@), *current_theme),
{
    let ghost cs = conns_view(conns@);
    let ghost f = |c: ConnView| conn_link_item(c);
    let mut links = String::new();
    let n = conns.len();
    let mut i: usize = 0;
    while i < n
        invariant
            n == conns@.len(),
            cs == conns_view(conns@),
            f == (|c: ConnView| conn_link_item(c)),
            0 <= i <= n,
            links@ == joined(cs.take(i as int), f, "\n"@),
        decreases n - i,
    {
        if i > 0 {
            links.append("\n");
        }
        links.append("<li><a href=\"/sql/");
        links.append(html_escape(conns[i].nickname.as_str()).as_str());
        links.append("\">");
        links.append(html_escape(conns[i].nickname.as_str()).as_str());
        links.append(" (");
        links.append(html_escape(conns[i].db_name.as_str()).as_str());
        links.append("@");
        links.append(html_escape(conns[i].host.as_str()).as_str());
        links.append(")</a></li>");
        proof {
            assert(cs[i as int] == conns@[i as int]@);
            lemma_joined_snoc(cs, f, "\n"@, i as int);
            assert(links@ =~= joined(cs.take(i + 1), f, "\n"@));
        }
        i = i + 1;
    }
    let mut content = "\n    <div class=\"sql-connections-page\">\n        <h1>SQL Connection Manager</h1>\n        \n        <div class=\"connection-form-container\">\n            <h2>Add New / Update Connection</h2>\n            <form method=\"POST\" action=\"/sql/add\" class=\"connection-form\">\n              <input name=\"nickname\" placeholder=\"Nickname (e.g., prod_db)\" required>\n              <input name=\"host\" placeholder=\"Host (e.g., localhost:5432)\" required>\n              <input name=\"db_name\" placeholder=\"Database Name\" required>\n              <input name=\"user\" placeholder=\"User\" required>\n              <input name=\"password\" type=\"password\" placeholder=\"Password\" required>\n              <button type=\"submit\">Save Connection</button>\n            </form>\n        </div>\n        \n        <div class=\"saved-connections-list\">\n            <h2>Saved Connections</h2>\n            <ul>".to_owned();
    content.append(links.as_str());
    content.append("</ul>\n        </div>\n    </div>\n    <style>\n        .sql-connections-page {\n            max-width: 800px;\n            margin: 0 auto;\n        }\n        .connection-form-container {\n            background-color: var(--secondary-bg);\n            padding: 20px;\n            border-radius: 8px;\n            margin-bottom: 20px;\n            border: 1px solid var(--border-color);\n        }\n        .connection-form input {\n            width: 100%;\n            padding: 10px;\n            margin-bottom: 10px;\n            box-sizing: border-box;\n            background-color: var(--primary-bg);\n            color: var(--text-color);\n            border: 1px solid var(--border-color);\n            border-radius: 4px;\n        }\n        .connection-form button {\n            width: 100%;\n            padding: 10px;\n        }\n        .saved-connections-list ul {\n            list-style-type: none;\n            padding: 0;\n        }\n        .saved-connections-list li {\n            background-color: var(--tertiary-bg);\n            margin: 5px 0;\n            padding: 10px;\n            border-radius: 4px;\n        }\n    </style>\n    ");
    let page = render_base_page("SQL Connections", content.as_str(), current_theme);
    proof {
        assert(cs.take(n as int) =~= cs);
        assert(content@ =~= conn_list_body(cs));
    }
    page
}

/// One table name as a sidebar list entry.
pub open spec fn table_item(t: Seq<char>) -> Seq<char> {
    "<li><a href=\"#\">"@ + escape_minimal(t) + "</a></li>"@
}

/// The sidebar list of table names, one entry per line.
pub open spec fn table_list_seq(tables: Seq<Seq<char>>) -> Seq<char> {
    joined(tables, |t: Seq<char>| table_item(t), "\n"@)
}

/// Render the sidebar list of the schema's table names.
pub fn render_table_list(tables: &Vec<String>) -> (r: String)
    ensures
        r@ == table_list_seq(str_views(tables@)),
{
    let ghost tv = str_views(tables@);
    let ghost f = |t: Seq<char>| table_item(t);
    let mut s = String::new();
    let n = tables.len();
    let mut i: usize = 0;
    while i < n
        invariant
            n == tables@.len(),
            tv == str_views(tables@),
            f == (|t: Seq<char>| table_item(t)),
            0 <= i <= n,
            s@ == joined(tv.take(i as int), f, "\n"@),
        decreases n - i,
    {
        if i > 0 {
            s.append("\n");
        }
        s.append("<li><a href=\"#\">");
        s.append(html_escape(tables[i].as_str()).as_str());
        s.append("</a></li>");
        proof {
            assert(tv[i as int] == tables@[i as int]@);
            lemma_joined_snoc(tv, f, "\n"@, i as int);
            assert(s@ =~= joined(tv.take(i + 1), f, "\n"@));
        }
        i = i + 1;
    }
    proof {
        assert(tv.take(n as int) =~= tv);
    }
    s
}

/// One saved query as a sidebar entry with its delete button.
pub open spec fn query_item(q: SavedQuery, nick_safe: Seq<char>) -> Seq<char> {
    "<li class=\"saved-query-item\"><a href=\"#\" data-sql=\""@ + escape_minimal(q.sql@) + "\" data-name=\""@ + escape_minimal(q.name@) + "\" class=\"query-link\">"@ + escape_minimal(q.name@)
        + "</a><form method=\"POST\" action=\"/sql/delete\" style=\"display:inline;\"><input type=\"hidden\" name=\"query_name\" value=\""@ + escape_minimal(q.name@) + "\"><input type=\"hidden\" name=\"connection\" value=\""@ + nick_safe + "\"><button type=\"submit\" class=\"delete-btn\" title=\"Delete\">x</button></form></li>"@
}

/// The body of the query view page: the sidebar with tables and saved
/// queries, and the editor with its run and export controls.
pub open spec fn query_view_body(
    nick: Seq<char>,
    table_list: Seq<char>,
    queries: Seq<SavedQuery>,
) -> Seq<char> {
    let nick_safe = escape_minimal(nick);
    "\n    <div class=\"sql-view-container\">\n      <div id=\"sidebar\">\n        <h2>Tables</h2>\n        <div class=\"sidebar-search\"><input type=\"text\" id=\"sidebar-search-input\" placeholder=\"Search tables...\"></div>\n        <ul id=\"table-list\">"@ + table_list + "</ul>\n        <h2 style=\"margin-top: 20px;\">Saved Queries</h2>\n        <div class=\"sidebar-search\"><input type=\"text\" id=\"query-search-input\" placeholder=\"Search queries...\"></div>\n        <ul id=\"saved-queries-list\">"@ + joined(
        queries,
        |q: SavedQuery| query_item(q, nick_safe),
        "\n"@,
    ) + "</ul>\n        <form id=\"save-query-form\" method=\"POST\" action=\"/sql/save\" class=\"query-save-form\">\n            <input type=\"text\" id=\"query-name\" name=\"query_name\" placeholder=\"Name query to save\" required>\n            <input type=\"hidden\" id=\"query-sql\" name=\"sql\">\n            <!-- Add hidden connection input so redirect works -->\n            <input type=\"hidden\" name=\"connection\" value=\""@ + nick_safe + "\">\n            <button type=\"submit\">Save Current Query</button>\n        </form>\n      </div>\n      <span id=\"toggle-arrow\">&#x25C0;</span>\n      <div id=\"main\">\n        <form id=\"sql-form\" method=\"POST\" action=\"/sql/run\">\n          <input type=\"hidden\" name=\"connection\" value=\""@ + nick_safe + "\">\n          <div class=\"editor-container\">\n            <textarea id=\"sql-editor\" name=\"sql\" placeholder=\"SELECT * FROM table_name WHERE...\"></textarea>\n          </div>\n          <div class=\"action-buttons\">\n            <button type=\"submit\">Run Query</button>\n            <a href=\"/sql/export\" target=\"_blank\"><button type=\"button\">Save Results as CSV</button></a>\n          </div>\n        </form>\n        <div class=\"output\" id=\"output\"><pre>Click a table name or enter a query and press 'Run Query'.</pre></div>\n      </div>\n    </div>\n    <script>\n      const toggleArrow = document.getElementById('toggle-arrow');\n      const sidebar = document.getElementById('sidebar');\n      const mainContent = document.getElementById('main');\n      let collapsed = false;\n      const editor = document.getElementById('sql-editor');\n      const sidebarSearchInput = document.getElementById('sidebar-search-input');\n      const sidebarTableList = document.getElementById('table-list');\n      const querySearchInput = document.getElementById('query-search-input');\n      const savedQueriesList = document.getElementById('saved-queries-list');\n      const saveQueryForm = document.getElementById('save-query-form');\n      const queryNameInput = document.getElementById('query-name');\n      const querySqlInput = document.getElementById('query-sql');\n\n      toggleArrow.addEventListener('click', () => {\n        if (!collapsed) {\n          sidebar.style.width = '0px'; sidebar.style.padding = '0'; toggleArrow.innerHTML = '&#x25B6;'; toggleArrow.style.left = '0px'; mainContent.style.width = '100%'; collapsed = true;\n        } else {\n          sidebar.style.width = '200px'; sidebar.style.padding = '10px'; toggleArrow.innerHTML = '&#x25C0;'; toggleArrow.style.left = '200px'; mainContent.style.width = 'auto'; collapsed = false;\n        }\n      });\n      toggleArrow.style.left = sidebar.style.width;\n\n      const form = document.getElementById('sql-form');\n      const output = document.getElementById('output');\n      form.addEventListener('submit', async (e) => {\n        e.preventDefault();\n        output.innerHTML = 'Loading...';\n        const formData = new FormData(form);\n        const body = new URLSearchParams(formData).toString();\n        const resp = await fetch('/sql/run', { method: 'POST', headers: { 'Content-Type': 'application/x-www-form-urlencoded' }, body: body });\n        const html = await resp.text();\n        output.innerHTML = html;\n        queryNameInput.value = '';\n      });\n\n      sidebarTableList.addEventListener('click', (e) => {\n          const target = e.target.closest('a');\n          if (target) { e.preventDefault(); const table_name = target.textContent; editor.value = \"SELECT * FROM \\\\\\\"\" + table_name + \"\\\\\\\" LIMIT 100;\"; }\n      });\n\n      savedQueriesList.addEventListener('click', (e) => {\n          const target = e.target.closest('a');\n          if (target) { e.preventDefault(); const sql = target.getAttribute('data-sql'); const name = target.getAttribute('data-name'); editor.value = sql; queryNameInput.value = name; }\n      });\n\n      saveQueryForm.addEventListener('submit', (e) => {\n          querySqlInput.value = editor.value;\n          if (queryNameInput.value.trim() === '') { e.preventDefault(); }\n      });\n\n      function filterSidebarTables() {\n          const filter = sidebarSearchInput.value.toUpperCase();\n          const listItems = sidebarTableList.getElementsByTagName('li');\n          for (let i = 0; i < listItems.length; i++) {\n              const itemText = listItems[i].textContent || listItems[i].innerText;\n              if (itemText.toUpperCase().indexOf(filter) > -1) { listItems[i].style.display = ''; } else { listItems[i].style.display = 'none'; }\n          }\n      }\n\n      function filterSavedQueries() {\n          const filter = querySearchInput.value.toUpperCase();\n          const listItems = savedQueriesList.getElementsByTagName('li');\n          for (let i = 0; i < listItems.length; i++) {\n              const itemText = listItems[i].querySelector('.query-link').textContent || listItems[i].querySelector('.query-link').innerText;\n              if (itemText.toUpperCase().indexOf(filter) > -1) { listItems[i].style.display = 'flex'; } else { listItems[i].style.display = 'none'; }\n          }\n      }\n\n      sidebarSearchInput.addEventListener('keyup', filterSidebarTables);\n      querySearchInput.addEventListener('keyup', filterSavedQueries);\n\n      if (editor.value === \"\") { editor.value = \"SELECT 1;\"; }\n    </script>\n    "@
}

/// The full query view page for one connection.
pub open spec fn query_view_page(
    nick: Seq<char>,
    table_list: Seq<char>,
    queries: Seq<SavedQuery>,
    theme: Theme,
) -> Seq<char> {
    base_page_seq(
        "SQL View: "@ + nick,
        "\n<style>\n    .sql-view-container { display: flex; height: calc(100vh - 70px); position: relative; }\n    #sidebar { width: 200px; background: var(--secondary-bg); color: var(--text-color); padding: 10px; overflow-y: auto; transition: width 0.3s, padding 0.3s; flex-shrink: 0; border-right: 1px solid var(--border-color); }\n    #sidebar h2 { margin: 0; padding-bottom: 5px; border-bottom: 1px solid var(--border-color); }\n    #sidebar ul { list-style: none; padding: 0; margin: 5px 0 0 0; }\n    #sidebar li { padding: 5px 0; cursor: pointer; }\n    \n    /* Updated sidebar styles for saved queries */\n    .saved-query-item { display: flex; justify-content: space-between; align-items: center; padding-right: 5px; }\n    .query-link { flex-grow: 1; overflow: hidden; text-overflow: ellipsis; white-space: nowrap; margin-right: 5px; }\n    .delete-btn { background: none; border: none; color: #ff6b6b; font-weight: bold; padding: 0 5px; margin: 0; cursor: pointer; }\n    .delete-btn:hover { color: #ff3b3b; background: rgba(255,0,0,0.1); border-radius: 3px; }\n    \n    .sidebar-search input { width: 95%; padding: 5px; margin-bottom: 10px; box-sizing: border-box; border: 1px solid var(--border-color); background: var(--primary-bg); color: var(--text-color); border-radius: 4px; }\n    #sidebar ul a { display: block; }\n    .query-save-form { margin-top: 10px; padding-top: 10px; border-top: 1px solid var(--border-color); }\n    .query-save-form input[type=\"text\"] { width: 100%; padding: 5px; margin-bottom: 5px; box-sizing: border-box; border: 1px solid var(--border-color); background: var(--primary-bg); color: var(--text-color); border-radius: 4px; }\n    #toggle-arrow { position: absolute; top: 10px; left: 200px; cursor: pointer; font-size: 18px; user-select: none; background: var(--tertiary-bg); color: var(--text-color); padding: 4px; border-radius: 4px; transition: left 0.3s, background-color 0.2s; line-height: 1; z-index: 10; }\n    #toggle-arrow:hover { background: var(--border-color); }\n    #main { flex: 1; display: flex; flex-direction: column; padding: 10px; }\n    #sql-form { display: flex; flex-direction: column; flex-grow: 1; }\n    .editor-container { flex: 1; min-height: 200px; margin-bottom: 10px; }\n    #sql-editor { height: 100%; }\n    .output { margin-top: 10px; flex-shrink: 0; max-height: 50%; overflow-y: auto; }\n    .action-buttons { display: flex; gap: 10px; flex-shrink: 0; }\n    .action-buttons button { margin-top: 0; }\n    .grid { width: 100%; }\n</style>\n"@ + query_view_body(nick, table_list, queries),
        theme,
    )
}

/// Render the query view page for a connection: the sidebar of tables and
/// saved queries and the SQL editor, names and SQL HTML-escaped.
pub fn render_query_view(
    nickname: &str,
    table_list: &str,
    queries: &Vec<SavedQuery>,
    current_theme: &Theme,
) -> (r: String)
    ensures
        r@ == query_view_page(nickname@, table_list@, queries@, *current_theme),
{
    let nick_safe = html_escape(nickname);
    let ghost nsv = escape_minimal(nickname@);
    let ghost f = |q: SavedQuery| query_item(q, nsv);
    let mut items = String::new();
    let n = queries.len();
    let mut i: usize = 0;
    while i < n
        invariant
            n == queries@.len(),
            nsv == escape_minimal(nickname@),
            nick_safe@ == nsv,
            f == (|q: SavedQuery| query_item(q, nsv)),
            0 <= i <= n,
            items@ == joined(queries@.take(i as int), f, "\n"@),
        decreases n - i,
    {
        if i > 0 {
            items.append("\n");
        }
        items.append("<li class=\"saved-query-item\"><a href=\"#\" data-sql=\"");
        items.append(html_escape(queries[i].sql.as_str()).as_str());
        items.append("\" data-name=\"");
        items.append(html_escape(queries[i].name.as_str()).as_str());
        items.append("\" class=\"query-link\">");
        items.append(html_escape(queries[i].name.as_str()).as_str());
        items.append("</a><form method=\"POST\" action=\"/sql/delete\" style=\"display:inline;\"><input type=\"hidden\" name=\"query_name\" value=\"");
        items.append(html_escape(queries[i].name.as_str()).as_str());
        items.append("\"><input type=\"hidden\" name=\"connection\" value=\"");
        items.append(nick_safe.as_str());
        items.append("\"><button type=\"submit\" class=\"delete-btn\" title=\"Delete\">x</button></form></li>");
        proof {
            lemma_joined_snoc(queries@, f, "\n"@, i as int);
            assert(items@ =~= joined(queries@.take(i + 1), f, "\n"@));
        }
        i = i + 1;
    }
    let mut body = "\n<style>\n    .sql-view-container { display: flex; height: calc(100vh - 70px); position: relative; }\n    #sidebar { width: 200px; background: var(--secondary-bg); color: var(--text-color); padding: 10px; overflow-y: auto; transition: width 0.3s, padding 0.3s; flex-shrink: 0; border-right: 1px solid var(--border-color); }\n    #sidebar h2 { margin: 0; padding-bottom: 5px; border-bottom: 1px solid var(--border-color); }\n    #sidebar ul { list-style: none; padding: 0; margin: 5px 0 0 0; }\n    #sidebar li { padding: 5px 0; cursor: pointer; }\n    \n    /* Updated sidebar styles for saved queries */\n    .saved-query-item { display: flex; justify-content: space-between; align-items: center; padding-right: 5px; }\n    .query-link { flex-grow: 1; overflow: hidden; text-overflow: ellipsis; white-space: nowrap; margin-right: 5px; }\n    .delete-btn { background: none; border: none; color: #ff6b6b; font-weight: bold; padding: 0 5px; margin: 0; cursor: pointer; }\n    .delete-btn:hover { color: #ff3b3b; background: rgba(255,0,0,0.1); border-radius: 3px; }\n    \n    .sidebar-search input { width: 95%; padding: 5px; margin-bottom: 10px; box-sizing: border-box; border: 1px solid var(--border-color); background: var(--primary-bg); color: var(--text-color); border-radius: 4px; }\n    #sidebar ul a { display: block; }\n    .query-save-form { margin-top: 10px; padding-top: 10px; border-top: 1px solid var(--border-color); }\n    .query-save-form input[type=\"text\"] { width: 100%; padding: 5px; margin-bottom: 5px; box-sizing: border-box; border: 1px solid var(--border-color); background: var(--primary-bg); color: var(--text-color); border-radius: 4px; }\n    #toggle-arrow { position: absolute; top: 10px; left: 200px; cursor: pointer; font-size: 18px; user-select: none; background: var(--tertiary-bg); color: var(--text-color); padding: 4px; border-radius: 4px; transition: left 0.3s, background-color 0.2s; line-height: 1; z-index: 10; }\n    #toggle-arrow:hover { background: var(--border-color); }\n    #main { flex: 1; display: flex; flex-direction: column; padding: 10px; }\n    #sql-form { display: flex; flex-direction: column; flex-grow: 1; }\n    .editor-container { flex: 1; min-height: 200px; margin-bottom: 10px; }\n    #sql-editor { height: 100%; }\n    .output { margin-top: 10px; flex-shrink: 0; max-height: 50%; overflow-y: auto; }\n    .action-buttons { display: flex; gap: 10px; flex-shrink: 0; }\n    .action-buttons button { margin-top: 0; }\n    .grid { width: 100%; }\n</style>\n".to_owned();
    body.append("\n    <div class=\"sql-view-container\">\n      <div id=\"sidebar\">\n        <h2>Tables</h2>\n        <div class=\"sidebar-search\"><input type=\"text\" id=\"sidebar-search-input\" placeholder=\"Search tables...\"></div>\n        <ul id=\"table-list\">");
    body.append(table_list);
    body.append("</ul>\n        <h2 style=\"margin-top: 20px;\">Saved Queries</h2>\n        <div class=\"sidebar-search\"><input type=\"text\" id=\"query-search-input\" placeholder=\"Search queries...\"></div>\n        <ul id=\"saved-queries-list\">");
    body.append(items.as_str());
    body.append("</ul>\n        <form id=\"save-query-form\" method=\"POST\" action=\"/sql/save\" class=\"query-save-form\">\n            <input type=\"text\" id=\"query-name\" name=\"query_name\" placeholder=\"Name query to save\" required>\n            <input type=\"hidden\" id=\"query-sql\" name=\"sql\">\n            <!-- Add hidden connection input so redirect works -->\n            <input type=\"hidden\" name=\"connection\" value=\"");
    body.append(nick_safe.as_str());
    body.append("\">\n            <button type=\"submit\">Save Current Query</button>\n        </form>\n      </div>\n      <span id=\"toggle-arrow\">&#x25C0;</span>\n      <div id=\"main\">\n        <form id=\"sql-form\" method=\"POST\" action=\"/sql/run\">\n          <input type=\"hidden\" name=\"connection\" value=\"");
    body.append(nick_safe.as_str());
    body.append("\">\n          <div class=\"editor-container\">\n            <textarea id=\"sql-editor\" name=\"sql\" placeholder=\"SELECT * FROM table_name WHERE...\"></textarea>\n          </div>\n          <div class=\"action-buttons\">\n            <button type=\"submit\">Run Query</button>\n            <a href=\"/sql/export\" target=\"_blank\"><button type=\"button\">Save Results as CSV</button></a>\n          </div>\n        </form>\n        <div class=\"output\" id=\"output\"><pre>Click a table name or enter a query and press 'Run Query'.</pre></div>\n      </div>\n    </div>\n    <script>\n      const toggleArrow = document.getElementById('toggle-arrow');\n      const sidebar = document.getElementById('sidebar');\n      const mainContent = document.getElementById('main');\n      let collapsed = false;\n      const editor = document.getElementById('sql-editor');\n      const sidebarSearchInput = document.getElementById('sidebar-search-input');\n      const sidebarTableList = document.getElementById('table-list');\n      const querySearchInput = document.getElementById('query-search-input');\n      const savedQueriesList = document.getElementById('saved-queries-list');\n      const saveQueryForm = document.getElementById('save-query-form');\n      const queryNameInput = document.getElementById('query-name');\n      const querySqlInput = document.getElementById('query-sql');\n\n      toggleArrow.addEventListener('click', () => {\n        if (!collapsed) {\n          sidebar.style.width = '0px'; sidebar.style.padding = '0'; toggleArrow.innerHTML = '&#x25B6;'; toggleArrow.style.left = '0px'; mainContent.style.width = '100%'; collapsed = true;\n        } else {\n          sidebar.style.width = '200px'; sidebar.style.padding = '10px'; toggleArrow.innerHTML = '&#x25C0;'; toggleArrow.style.left = '200px'; mainContent.style.width = 'auto'; collapsed = false;\n        }\n      });\n      toggleArrow.style.left = sidebar.style.width;\n\n      const form = document.getElementById('sql-form');\n      const output = document.getElementById('output');\n      form.addEventListener('submit', async (e) => {\n        e.preventDefault();\n        output.innerHTML = 'Loading...';\n        const formData = new FormData(form);\n        const body = new URLSearchParams(formData).toString();\n        const resp = await fetch('/sql/run', { method: 'POST', headers: { 'Content-Type': 'application/x-www-form-urlencoded' }, body: body });\n        const html = await resp.text();\n        output.innerHTML = html;\n        queryNameInput.value = '';\n      });\n\n      sidebarTableList.addEventListener('click', (e) => {\n          const target = e.target.closest('a');\n          if (target) { e.preventDefault(); const table_name = target.textContent; editor.value = \"SELECT * FROM \\\\\\\"\" + table_name + \"\\\\\\\" LIMIT 100;\"; }\n      });\n\n      savedQueriesList.addEventListener('click', (e) => {\n          const target = e.target.closest('a');\n          if (target) { e.preventDefault(); const sql = target.getAttribute('data-sql'); const name = target.getAttribute('data-name'); editor.value = sql; queryNameInput.value = name; }\n      });\n\n      saveQueryForm.addEventListener('submit', (e) => {\n          querySqlInput.value = editor.value;\n          if (queryNameInput.value.trim() === '') { e.preventDefault(); }\n      });\n\n      function filterSidebarTables() {\n          const filter = sidebarSearchInput.value.toUpperCase();\n          const listItems = sidebarTableList.getElementsByTagName('li');\n          for (let i = 0; i < listItems.length; i++) {\n              const itemText = listItems[i].textContent || listItems[i].innerText;\n              if (itemText.toUpperCase().indexOf(filter) > -1) { listItems[i].style.display = ''; } else { listItems[i].style.display = 'none'; }\n          }\n      }\n\n      function filterSavedQueries() {\n          const filter = querySearchInput.value.toUpperCase();\n          const listItems = savedQueriesList.getElementsByTagName('li');\n          for (let i = 0; i < listItems.length; i++) {\n              const itemText = listItems[i].querySelector('.query-link').textContent || listItems[i].querySelector('.query-link').innerText;\n              if (itemText.toUpperCase().indexOf(filter) > -1) { listItems[i].style.display = 'flex'; } else { listItems[i].style.display = 'none'; }\n          }\n      }\n\n      sidebarSearchInput.addEventListener('keyup', filterSidebarTables);\n      querySearchInput.addEventListener('keyup', filterSavedQueries);\n\n      if (editor.value === \"\") { editor.value = \"SELECT 1;\"; }\n    </script>\n    ");
    let mut title = "SQL View: ".to_owned();
    title.append(nickname);
    let page = render_base_page(title.as_str(), body.as_str(), current_theme);
    proof {
        assert(queries@.take(n as int) =~= queries@);
        assert(title@ =~= "SQL View: "@ + nickname@);
        assert(body@ =~= "\n<style>\n    .sql-view-container { display: flex; height: calc(100vh - 70px); position: relative; }\n    #sidebar { width: 200px; background: var(--secondary-bg); color: var(--text-color); padding: 10px; overflow-y: auto; transition: width 0.3s, padding 0.3s; flex-shrink: 0; border-right: 1px solid var(--border-color); }\n    #sidebar h2 { margin: 0; padding-bottom: 5px; border-bottom: 1px solid var(--border-color); }\n    #sidebar ul { list-style: none; padding: 0; margin: 5px 0 0 0; }\n    #sidebar li { padding: 5px 0; cursor: pointer; }\n    \n    /* Updated sidebar styles for saved queries */\n    .saved-query-item { display: flex; justify-content: space-between; align-items: center; padding-right: 5px; }\n    .query-link { flex-grow: 1; overflow: hidden; text-overflow: ellipsis; white-space: nowrap; margin-right: 5px; }\n    .delete-btn { background: none; border: none; color: #ff6b6b; font-weight: bold; padding: 0 5px; margin: 0; cursor: pointer; }\n    .delete-btn:hover { color: #ff3b3b; background: rgba(255,0,0,0.1); border-radius: 3px; }\n    \n    .sidebar-search input { width: 95%; padding: 5px; margin-bottom: 10px; box-sizing: border-box; border: 1px solid var(--border-color); background: var(--primary-bg); color: var(--text-color); border-radius: 4px; }\n    #sidebar ul a { display: block; }\n    .query-save-form { margin-top: 10px; padding-top: 10px; border-top: 1px solid var(--border-color); }\n    .query-save-form input[type=\"text\"] { width: 100%; padding: 5px; margin-bottom: 5px; box-sizing: border-box; border: 1px solid var(--border-color); background: var(--primary-bg); color: var(--text-color); border-radius: 4px; }\n    #toggle-arrow { position: absolute; top: 10px; left: 200px; cursor: pointer; font-size: 18px; user-select: none; background: var(--tertiary-bg); color: var(--text-color); padding: 4px; border-radius: 4px; transition: left 0.3s, background-color 0.2s; line-height: 1; z-index: 10; }\n    #toggle-arrow:hover { background: var(--border-color); }\n    #main { flex: 1; display: flex; flex-direction: column; padding: 10px; }\n    #sql-form { display: flex; flex-direction: column; flex-grow: 1; }\n    .editor-container { flex: 1; min-height: 200px; margin-bottom: 10px; }\n    #sql-editor { height: 100%; }\n    .output { margin-top: 10px; flex-shrink: 0; max-height: 50%; overflow-y: auto; }\n    .action-buttons { display: flex; gap: 10px; flex-shrink: 0; }\n    .action-buttons button { margin-top: 0; }\n    .grid { width: 100%; }\n</style>\n"@ + query_view_body(nickname@, table_list@, queries@));
        assert(page@ =~= query_view_page(nickname@, table_list@, queries@, *current_theme));
    }
    page
}

} // verus!

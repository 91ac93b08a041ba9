use vstd::prelude::*;

use crate::models::Theme;

verus! {

/// The navigation bar markup, identical on every page.
pub open spec fn nav_seq() -> Seq<char> {
    "\n    <div class=\"tools\">\n      <div class=\"tool-buttons\">\n        <a href=\"/\"><button class=\"nav-button\">Home (Shortcuts)</button></a>\n        <a href=\"/sql\"><button class=\"nav-button\">SQL Manager</button></a>\n        <a href=\"/note\"><button class=\"nav-button\">Notes</button></a>\n        <a href=\"/calculator\"><button class=\"nav-button\">Calculator</button></a>\n        <a href=\"/paint\"><button class=\"nav-button\">Paint</button></a> <!-- NEW: Paint Button -->\n      </div>\n      <div class=\"right-buttons\">\n        <div id=\"optional-button-placeholder\"></div>\n        <a href=\"/settings\"><button class=\"nav-button\">Settings</button></a> \n      </div>\n    </div>\n    "@
}

/// Generates the HTML for the reusable navigation bar, linking to all
/// top-level tools.
pub fn nav_bar_html() -> (r: String)
    ensures
        r@ == nav_seq(),
{
    "\n    <div class=\"tools\">\n      <div class=\"tool-buttons\">\n        <a href=\"/\"><button class=\"nav-button\">Home (Shortcuts)</button></a>\n        <a href=\"/sql\"><button class=\"nav-button\">SQL Manager</button></a>\n        <a href=\"/note\"><button class=\"nav-button\">Notes</button></a>\n        <a href=\"/calculator\"><button class=\"nav-button\">Calculator</button></a>\n        <a href=\"/paint\"><button class=\"nav-button\">Paint</button></a> <!-- NEW: Paint Button -->\n      </div>\n      <div class=\"right-buttons\">\n        <div id=\"optional-button-placeholder\"></div>\n        <a href=\"/settings\"><button class=\"nav-button\">Settings</button></a> \n      </div>\n    </div>\n    ".to_owned()
}

/// The style block that sets the current theme's CSS variables.
pub open spec fn theme_vars_seq(t: Theme) -> Seq<char> {
    "\n<style id=\"current-theme-vars\">\n:root {\n    --primary-bg: "@ + t.primary_bg@
        + ";\n    --secondary-bg: "@ + t.secondary_bg@ + ";\n    --tertiary-bg: "@
        + t.tertiary_bg@ + ";\n    --text-color: "@ + t.text_color@ + ";\n    --link-color: "@
        + t.link_color@ + ";\n    --link-visited: "@ + t.link_visited@ + ";\n    --link-hover: "@
        + t.link_hover@ + ";\n    --border-color: "@ + t.border_color@ + ";\n}\n</style>\n"@
}

/// The CSS variable block for the current theme.
pub(crate) fn render_theme_variables(theme: &Theme) -> (r: String)
    ensures
        r@ == theme_vars_seq(*theme),
{
    let mut s = "\n<style id=\"current-theme-vars\">\n:root {\n    --primary-bg: ".to_owned();
    s.append(theme.primary_bg.as_str());
    s.append(";\n    --secondary-bg: ");
    s.append(theme.secondary_bg.as_str());
    s.append(";\n    --tertiary-bg: ");
    s.append(theme.tertiary_bg.as_str());
    s.append(";\n    --text-color: ");
    s.append(theme.text_color.as_str());
    s.append(";\n    --link-color: ");
    s.append(theme.link_color.as_str());
    s.append(";\n    --link-visited: ");
    s.append(theme.link_visited.as_str());
    s.append(";\n    --link-hover: ");
    s.append(theme.link_hover.as_str());
    s.append(";\n    --border-color: ");
    s.append(theme.border_color.as_str());
    s.append(";\n}\n</style>\n");
    proof {
        assert(s@ =~= theme_vars_seq(*theme));
    }
    s
}

/// A whole page: document head with title and theme variables, the
/// navigation bar, then the page body.
pub open spec fn base_page_seq(title: Seq<char>, body: Seq<char>, theme: Theme) -> Seq<char> {
    "<!DOCTYPE html>\n<html>\n  <head>\n    <meta charset=\"utf-8\">\n    <title>"@ + title
        + "</title>\n    "@ + theme_vars_seq(theme)
        + " <!-- Inject theme variables -->\n    <link rel=\"stylesheet\" href=\"/static/style.css\">\n  </head>\n  <body>\n    "@
        + nav_seq() + "\n    "@ + body + "\n  </body>\n</html>"@
}

/// Renders the standard HTML wrapper for any page: the required head,
/// stylesheet, theme variables and the navigation bar around the body.
pub fn render_base_page(title: &str, body_content: &str, current_theme: &Theme) -> (r: String)
    ensures
        r@ == base_page_seq(title@, body_content@, *current_theme),
{
    let mut s = "<!DOCTYPE html>\n<html>\n  <head>\n    <meta charset=\"utf-8\">\n    <title>"
        .to_owned();
    s.append(title);
    s.append("</title>\n    ");
    s.append(render_theme_variables(current_theme).as_str());
    s.append(
        " <!-- Inject theme variables -->\n    <link rel=\"stylesheet\" href=\"/static/style.css\">\n  </head>\n  <body>\n    ",
    );
    s.append(nav_bar_html().as_str());
    s.append("\n    ");
    s.append(body_content);
    s.append("\n  </body>\n</html>");
    proof {
        assert(s@ =~= base_page_seq(title@, body_content@, *current_theme));
    }
    s
}

/// The markup of the add-shortcut button.
pub open spec fn add_button_seq() -> Seq<char> {
    "\n    <div class=\"add-shortcut-container\">\n        <button class=\"nav-button add-button\" id=\"addShortcutBtn\">+ Add Shortcut</button>\n    </div>\n    "@
}

/// The add-shortcut button, injected into the navigation bar where a page
/// wants it.
pub fn render_add_shortcut_button() -> (r: String)
    ensures
        r@ == add_button_seq(),
{
    "\n    <div class=\"add-shortcut-container\">\n        <button class=\"nav-button add-button\" id=\"addShortcutBtn\">+ Add Shortcut</button>\n    </div>\n    ".to_owned()
}

/// The add-shortcut dialog and the script that drives it.
pub open spec fn modal_seq() -> Seq<char> {
    "\n<dialog id=\"addShortcutModal\">\n  <div class=\"modal-content\">\n    <span class=\"close-btn\" id=\"closeModalBtn\">&times;</span>\n    <h2>Add New Shortcut</h2>\n    <form action=\"/add_shortcut\" method=\"POST\" class=\"modal-form\">\n      <label for=\"shortcut\">Shortcut:</label>\n      <input type=\"text\" id=\"shortcut\" name=\"shortcut\" placeholder=\"e.g., gh\" required>\n\n      <label for=\"url\">URL:</label>\n      <input type=\"url\" id=\"url\" name=\"url\" placeholder=\"e.g., https://github.com\" required>\n\n      <div style=\"margin-top: 15px;\">\n        <input type=\"checkbox\" id=\"hidden\" name=\"hidden\" value=\"true\">\n        <label for=\"hidden\" style=\"display: inline; font-weight: normal;\">Hidden?</label>\n      </div>\n\n      <div class=\"form-actions\">\n        <button type=\"submit\" class=\"form-submit-btn\">Save Shortcut</button>\n      </div>\n    </form>\n  </div>\n</dialog>\n\n<script>\n  document.addEventListener('DOMContentLoaded', (event) => {{\n    var modal = document.getElementById(\"addShortcutModal\");\n    var btn = document.getElementById(\"addShortcutBtn\");\n    var span = document.getElementById(\"closeModalBtn\");\n\n    if (btn && modal) {{\n      btn.onclick = function() {{\n        modal.showModal(); \n      }}\n    }}\n\n    if (span && modal) {{\n      span.onclick = function() {{\n        modal.close();\n      }}\n    }}\n\n    // Close modal if user clicks on the backdrop\n    if (modal) {{\n        modal.addEventListener('click', (e) => {{\n            if (e.target.nodeName === 'DIALOG') {{\n                const rect = e.target.getBoundingClientRect();\n                // Check if click coordinates are outside the modal content area\n                if (e.clientY < rect.top || e.clientY > rect.bottom ||\n                    e.clientX < rect.left || e.clientX > rect.right) {{\n                    modal.close();\n                }}\n            }}\n        }});\n    }}\n  }});\n</script>\n"@
}

/// The floating add-shortcut dialog and its script.
pub fn render_add_shortcut_modal() -> (r: String)
    ensures
        r@ == modal_seq(),
{
    "\n<dialog id=\"addShortcutModal\">\n  <div class=\"modal-content\">\n    <span class=\"close-btn\" id=\"closeModalBtn\">&times;</span>\n    <h2>Add New Shortcut</h2>\n    <form action=\"/add_shortcut\" method=\"POST\" class=\"modal-form\">\n      <label for=\"shortcut\">Shortcut:</label>\n      <input type=\"text\" id=\"shortcut\" name=\"shortcut\" placeholder=\"e.g., gh\" required>\n\n      <label for=\"url\">URL:</label>\n      <input type=\"url\" id=\"url\" name=\"url\" placeholder=\"e.g., https://github.com\" required>\n\n      <div style=\"margin-top: 15px;\">\n        <input type=\"checkbox\" id=\"hidden\" name=\"hidden\" value=\"true\">\n        <label for=\"hidden\" style=\"display: inline; font-weight: normal;\">Hidden?</label>\n      </div>\n\n      <div class=\"form-actions\">\n        <button type=\"submit\" class=\"form-submit-btn\">Save Shortcut</button>\n      </div>\n    </form>\n  </div>\n</dialog>\n\n<script>\n  document.addEventListener('DOMContentLoaded', (event) => {{\n    var modal = document.getElementById(\"addShortcutModal\");\n    var btn = document.getElementById(\"addShortcutBtn\");\n    var span = document.getElementById(\"closeModalBtn\");\n\n    if (btn && modal) {{\n      btn.onclick = function() {{\n        modal.showModal(); \n      }}\n    }}\n\n    if (span && modal) {{\n      span.onclick = function() {{\n        modal.close();\n      }}\n    }}\n\n    // Close modal if user clicks on the backdrop\n    if (modal) {{\n        modal.addEventListener('click', (e) => {{\n            if (e.target.nodeName === 'DIALOG') {{\n                const rect = e.target.getBoundingClientRect();\n                // Check if click coordinates are outside the modal content area\n                if (e.clientY < rect.top || e.clientY > rect.bottom ||\n                    e.clientX < rect.left || e.clientX > rect.right) {{\n                    modal.close();\n                }}\n            }}\n        }});\n    }}\n  }});\n</script>\n".to_owned()
}

} // verus!

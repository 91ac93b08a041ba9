use vstd::prelude::*;

use crate::htmlview::cat_map;
use crate::htmlview::lemma_cat_map_snoc;
use crate::models::Theme;

verus! {

/// One saved theme as a dropdown option, marked selected when it is the
/// active theme.
pub open spec fn option_item(name: Seq<char>, current: Seq<char>) -> Seq<char> {
    "<option value=\""@ + name + "\" "@ + (if name == current {
        "selected"@
    } else {
        Seq::<char>::empty()
    }) + ">"@ + name + "</option>"@
}

/// The theme settings page body: the active theme's name and colors in
/// the form, and one dropdown option per saved theme, in list order.
pub open spec fn settings_seq(t: Theme, names: Seq<Seq<char>>) -> Seq<char> {
    "\n    <h1>Theme Settings</h1>\n    <p>Customize the look and feel of your alias service.</p>\n\n    <form action=\"/save_theme\" method=\"POST\" class=\"settings-form\">\n        <h2>Active Theme: "@
        + t.name@
        + "</h2>\n        <input type=\"hidden\" id=\"original_name\" name=\"original_name\" value=\""@
        + t.name@
        + "\">\n\n        <div class=\"settings-grid\">\n            <!-- Theme Name and Selector -->\n            <div>\n                <label for=\"theme_name\">Theme Name:</label>\n                <input type=\"text\" id=\"theme_name\" name=\"theme_name\" value=\""@
        + t.name@
        + "\" required>\n            </div>\n            <div>\n                <label for=\"load_theme\">Load Saved Theme:</label>\n                <select id=\"load_theme\" onchange=\"document.getElementById('theme_name_input').value = this.value; document.querySelector('.settings-form').submit();\">\n                    <option value=\"\" disabled selected>--- Select to Load ---</option>\n                    "@
        + cat_map(names, |n: Seq<char>| option_item(n, t.name@))
        + "\n                </select>\n                <!-- Hidden input to carry the selected theme name for loading -->\n                <input type=\"hidden\" id=\"theme_name_input\" name=\"load_theme_name\" value=\"\">\n            </div>\n\n            <!-- Color Pickers -->\n            <div>\n                <label for=\"primary_bg\">Primary Background:</label>\n                <input type=\"color\" id=\"primary_bg\" name=\"primary_bg\" value=\""@
        + t.primary_bg@
        + "\">\n            </div>\n            <div>\n                <label for=\"secondary_bg\">Secondary Background:</label>\n                <input type=\"color\" id=\"secondary_bg\" name=\"secondary_bg\" value=\""@
        + t.secondary_bg@
        + "\">\n            </div>\n            <div>\n                <label for=\"text_color\">Text Color:</label>\n                <input type=\"color\" id=\"text_color\" name=\"text_color\" value=\""@
        + t.text_color@
        + "\">\n            </div>\n            <div>\n                <label for=\"link_color\">Link Color:</label>\n                <input type=\"color\" id=\"link_color\" name=\"link_color\" value=\""@
        + t.link_color@
        + "\">\n            </div>\n            <div>\n                <label for=\"border_color\">Border/Separator:</label>\n                <input type=\"color\" id=\"border_color\" name=\"border_color\" value=\""@
        + t.border_color@
        + "\">\n            </div>\n            <div>\n                <label for=\"tertiary_bg\">Tertiary/Row Background:</label>\n                <input type=\"color\" id=\"tertiary_bg\" name=\"tertiary_bg\" value=\""@
        + t.tertiary_bg@
        + "\">\n            </div>\n            <div>\n                <label for=\"link_visited\">Visited Link Color:</label>\n                <input type=\"color\" id=\"link_visited\" name=\"link_visited\" value=\""@
        + t.link_visited@
        + "\">\n            </div>\n            <div>\n                <label for=\"link_hover\">Link Hover Color:</label>\n                <input type=\"color\" id=\"link_hover\" name=\"link_hover\" value=\""@
        + t.link_hover@
        + "\">\n            </div>\n        </div>\n\n        <div class=\"theme-action-buttons\">\n            <button type=\"button\" id=\"applyChangesBtn\">Apply Changes (Preview)</button>\n            <button type=\"submit\" name=\"action\" value=\"save\" class=\"form-submit-btn\">Save / Update Theme</button>\n            <button type=\"submit\" name=\"action\" value=\"apply_only\" class=\"form-submit-btn\">Apply Theme Only</button>\n        </div>\n    </form>\n    \n    <script>\n        document.addEventListener('DOMContentLoaded', () => {\n            const form = document.querySelector('.settings-form');\n            const applyBtn = document.getElementById('applyChangesBtn');\n            const styleElement = document.getElementById('current-theme-vars');\n            const themeInputs = form.querySelectorAll('input[type=\"color\"]');\n\n            // Function to apply colors instantly for preview\n            const applyTheme = () => {\n                let cssVars = ':root {';\n                themeInputs.forEach(input => {\n                    // Use standard JavaScript template literal syntax for injection\n                    cssVars += `--${input.id}: ${input.value};`; \n                });\n                cssVars += '}';\n                styleElement.innerHTML = cssVars;\n            };\n\n            // Event listeners for instant preview\n            themeInputs.forEach(input => {\n                input.addEventListener('input', applyTheme);\n            });\n            applyBtn.addEventListener('click', (e) => {\n                e.preventDefault(); // Prevent form submission\n                applyTheme();\n            });\n        });\n    </script>\n"@
}

/// The names of the saved themes, in list order.
pub open spec fn theme_names(saved: Seq<(String, Theme)>) -> Seq<Seq<char>> {
    saved.map_values(|p: (String, Theme)| p.0@)
}

/// Render the theme settings page content for the active theme and the
/// saved themes.
pub fn render_settings_page(current_theme: &Theme, saved_themes: &Vec<(String, Theme)>) -> (r:
    String)
    ensures
        r@ == settings_seq(*current_theme, theme_names(saved_themes@)),
{
    let ghost names = theme_names(saved_themes@);
    let ghost f = |n: Seq<char>| option_item(n, current_theme.name@);
    let mut options = String::new();
    let n = saved_themes.len();
    let mut i: usize = 0;
    while i < n
        invariant
            n == saved_themes@.len(),
            names == theme_names(saved_themes@),
            f == (|n2: Seq<char>| option_item(n2, current_theme.name@)),
            0 <= i <= n,
            options@ == cat_map(names.take(i as int), f),
        decreases n - i,
    {
        options.append("<option value=\"");
        options.append(saved_themes[i].0.as_str());
        options.append("\" ");
        if crate::strutil::str_eq(saved_themes[i].0.as_str(), current_theme.name.as_str()) {
            options.append("selected");
        }
        options.append(">");
        options.append(saved_themes[i].0.as_str());
        options.append("</option>");
        proof {
            assert(names[i as int] == saved_themes@[i as int].0@);
            lemma_cat_map_snoc(names, f, i as int);
            assert(options@ =~= cat_map(names.take(i + 1), f));
        }
        i = i + 1;
    }
    let mut s = "\n    <h1>Theme Settings</h1>\n    <p>Customize the look and feel of your alias service.</p>\n\n    <form action=\"/save_theme\" method=\"POST\" class=\"settings-form\">\n        <h2>Active Theme: ".to_owned();
    s.append(current_theme.name.as_str());
    s.append("</h2>\n        <input type=\"hidden\" id=\"original_name\" name=\"original_name\" value=\"");
    s.append(current_theme.name.as_str());
    s.append("\">\n\n        <div class=\"settings-grid\">\n            <!-- Theme Name and Selector -->\n            <div>\n                <label for=\"theme_name\">Theme Name:</label>\n                <input type=\"text\" id=\"theme_name\" name=\"theme_name\" value=\"");
    s.append(current_theme.name.as_str());
    s.append("\" required>\n            </div>\n            <div>\n                <label for=\"load_theme\">Load Saved Theme:</label>\n                <select id=\"load_theme\" onchange=\"document.getElementById('theme_name_input').value = this.value; document.querySelector('.settings-form').submit();\">\n                    <option value=\"\" disabled selected>--- Select to Load ---</option>\n                    ");
    s.append(options.as_str());
    s.append("\n                </select>\n                <!-- Hidden input to carry the selected theme name for loading -->\n                <input type=\"hidden\" id=\"theme_name_input\" name=\"load_theme_name\" value=\"\">\n            </div>\n\n            <!-- Color Pickers -->\n            <div>\n                <label for=\"primary_bg\">Primary Background:</label>\n                <input type=\"color\" id=\"primary_bg\" name=\"primary_bg\" value=\"");
    s.append(current_theme.primary_bg.as_str());
    s.append("\">\n            </div>\n            <div>\n                <label for=\"secondary_bg\">Secondary Background:</label>\n                <input type=\"color\" id=\"secondary_bg\" name=\"secondary_bg\" value=\"");
    s.append(current_theme.secondary_bg.as_str());
    s.append("\">\n            </div>\n            <div>\n                <label for=\"text_color\">Text Color:</label>\n                <input type=\"color\" id=\"text_color\" name=\"text_color\" value=\"");
    s.append(current_theme.text_color.as_str());
    s.append("\">\n            </div>\n            <div>\n                <label for=\"link_color\">Link Color:</label>\n                <input type=\"color\" id=\"link_color\" name=\"link_color\" value=\"");
    s.append(current_theme.link_color.as_str());
    s.append("\">\n            </div>\n            <div>\n                <label for=\"border_color\">Border/Separator:</label>\n                <input type=\"color\" id=\"border_color\" name=\"border_color\" value=\"");
    s.append(current_theme.border_color.as_str());
    s.append("\">\n            </div>\n            <div>\n                <label for=\"tertiary_bg\">Tertiary/Row Background:</label>\n                <input type=\"color\" id=\"tertiary_bg\" name=\"tertiary_bg\" value=\"");
    s.append(current_theme.tertiary_bg.as_str());
    s.append("\">\n            </div>\n            <div>\n                <label for=\"link_visited\">Visited Link Color:</label>\n                <input type=\"color\" id=\"link_visited\" name=\"link_visited\" value=\"");
    s.append(current_theme.link_visited.as_str());
    s.append("\">\n            </div>\n            <div>\n                <label for=\"link_hover\">Link Hover Color:</label>\n                <input type=\"color\" id=\"link_hover\" name=\"link_hover\" value=\"");
    s.append(current_theme.link_hover.as_str());
    s.append("\">\n            </div>\n        </div>\n\n        <div class=\"theme-action-buttons\">\n            <button type=\"button\" id=\"applyChangesBtn\">Apply Changes (Preview)</button>\n            <button type=\"submit\" name=\"action\" value=\"save\" class=\"form-submit-btn\">Save / Update Theme</button>\n            <button type=\"submit\" name=\"action\" value=\"apply_only\" class=\"form-submit-btn\">Apply Theme Only</button>\n        </div>\n    </form>\n    \n    <script>\n        document.addEventListener('DOMContentLoaded', () => {\n            const form = document.querySelector('.settings-form');\n            const applyBtn = document.getElementById('applyChangesBtn');\n            const styleElement = document.getElementById('current-theme-vars');\n            const themeInputs = form.querySelectorAll('input[type=\"color\"]');\n\n            // Function to apply colors instantly for preview\n            const applyTheme = () => {\n                let cssVars = ':root {';\n                themeInputs.forEach(input => {\n                    // Use standard JavaScript template literal syntax for injection\n                    cssVars += `--${input.id}: ${input.value};`; \n                });\n                cssVars += '}';\n                styleElement.innerHTML = cssVars;\n            };\n\n            // Event listeners for instant preview\n            themeInputs.forEach(input => {\n                input.addEventListener('input', applyTheme);\n            });\n            applyBtn.addEventListener('click', (e) => {\n                e.preventDefault(); // Prevent form submission\n                applyTheme();\n            });\n        });\n    </script>\n");
    proof {
        assert(names.take(n as int) =~= names);
        assert(s@ =~= settings_seq(*current_theme, names));
    }
    s
}

} // verus!

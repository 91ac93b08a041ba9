use vstd::prelude::*;

verus! {

/// Mathematical image of a connection descriptor: each field as its
/// character sequence.
pub ghost struct ConnView {
    pub host: Seq<char>,
    pub db_name: Seq<char>,
    pub user: Seq<char>,
    pub password: Seq<char>,
    pub nickname: Seq<char>,
}

/// A persisted credential set for one database, keyed by its nickname.
pub struct DbConnection {
    pub host: String,
    pub db_name: String,
    pub user: String,
    pub password: String,
    pub nickname: String,
}

impl View for DbConnection {
    type V = ConnView;

    open spec fn view(&self) -> ConnView {
        ConnView {
            host: self.host@,
            db_name: self.db_name@,
            user: self.user@,
            password: self.password@,
            nickname: self.nickname@,
        }
    }
}

impl Clone for DbConnection {
    fn clone(&self) -> (r: Self)
        ensures
            r@ == self@,
    {
        DbConnection {
            host: self.host.clone(),
            db_name: self.db_name.clone(),
            user: self.user.clone(),
            password: self.password.clone(),
            nickname: self.nickname.clone(),
        }
    }
}

/// The list of connections a registry holds, as a sequence of views.
pub open spec fn conns_view(conns: Seq<DbConnection>) -> Seq<ConnView> {
    conns.map_values(|c: DbConnection| c@)
}

/// Form data for adding or updating a connection.
pub struct AddConnForm {
    pub host: String,
    pub db_name: String,
    pub user: String,
    pub password: String,
    pub nickname: String,
}

/// Form data for running a query against a named connection.
pub struct SqlForm {
    pub sql: String,
    pub connection: String,
}

/// A saved note: its subject line and body.
pub struct Note {
    pub subject: String,
    pub content: String,
}

/// A color theme: a name and the CSS color variables it sets.
pub struct Theme {
    pub name: String,
    pub primary_bg: String,
    pub secondary_bg: String,
    pub tertiary_bg: String,
    pub text_color: String,
    pub link_color: String,
    pub link_visited: String,
    pub link_hover: String,
    pub border_color: String,
}

impl Clone for Theme {
    fn clone(&self) -> (r: Self)
        ensures
            r.name@ == self.name@,
            r.primary_bg@ == self.primary_bg@,
            r.secondary_bg@ == self.secondary_bg@,
            r.tertiary_bg@ == self.tertiary_bg@,
            r.text_color@ == self.text_color@,
            r.link_color@ == self.link_color@,
            r.link_visited@ == self.link_visited@,
            r.link_hover@ == self.link_hover@,
            r.border_color@ == self.border_color@,
    {
        Theme {
            name: self.name.clone(),
            primary_bg: self.primary_bg.clone(),
            secondary_bg: self.secondary_bg.clone(),
            tertiary_bg: self.tertiary_bg.clone(),
            text_color: self.text_color.clone(),
            link_color: self.link_color.clone(),
            link_visited: self.link_visited.clone(),
            link_hover: self.link_hover.clone(),
            border_color: self.border_color.clone(),
        }
    }
}

/// Form data for saving or loading a theme.
pub struct ThemeForm {
    pub original_name: String,
    pub theme_name: String,
    pub primary_bg: String,
    pub secondary_bg: String,
    pub tertiary_bg: String,
    pub text_color: String,
    pub link_color: String,
    pub link_visited: String,
    pub link_hover: String,
    pub border_color: String,
    pub load_theme_name: Option<String>,
    pub action: String,
}

/// Form data for adding a shortcut.
pub struct AddShortcutForm {
    pub shortcut: String,
    pub url: String,
    pub hidden: Option<String>,
}

/// Form data for deleting a shortcut by its key.
pub struct DeleteShortcutForm {
    pub key: String,
}

/// Form data for saving a note.
pub struct NoteForm {
    pub subject: String,
    pub content: String,
}

/// A saved query: its display name and its SQL text.
pub struct SavedQuery {
    pub name: String,
    pub sql: String,
}

} // verus!

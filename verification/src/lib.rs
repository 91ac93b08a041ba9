//! An administrative SQL console's verified core: a credential vault that
//! keeps connection descriptors encrypted at rest, a registry of named
//! connections, a decoder that turns raw wire-format column values into
//! display strings, a single-slot result cache with CSV export, and the
//! HTML views the surrounding application serves.

use vstd::prelude::*;

mod appstate;
mod calendar;
mod csvio;
mod decoder;
mod escape;
mod htmlview;
mod jsoncodec;
mod models;
mod numfmt;
mod pages;
mod queries;
mod registry;
mod results;
mod settings;
mod shortcuts;
mod shorttable;
mod sqlpages;
mod strorder;
mod strutil;
mod themes;
mod vault;

pub use appstate::AppState;
pub use calendar::format_date;
pub use calendar::format_ts;
pub use decoder::RawCell;
pub use decoder::RawValue;
pub use decoder::decode_cell;
pub use escape::html_escape;
pub use htmlview::ExecutionError;
pub use htmlview::build_dsn;
pub use htmlview::render_table;
pub use jsoncodec::encode_connections;
pub use jsoncodec::parse_connections;
pub use models::AddConnForm;
pub use models::AddShortcutForm;
pub use models::DbConnection;
pub use models::DeleteShortcutForm;
pub use models::Note;
pub use models::NoteForm;
pub use models::SavedQuery;
pub use models::SqlForm;
pub use models::Theme;
pub use models::ThemeForm;
pub use pages::nav_bar_html;
pub use pages::render_add_shortcut_button;
pub use pages::render_add_shortcut_modal;
pub use pages::render_base_page;
pub use queries::remove_query;
pub use queries::upsert_query;
pub use registry::add_or_update;
pub use registry::find_connection;
pub use results::RawColumn;
pub use results::ResultSet;
pub use results::export_csv;
pub use results::process_rows;
pub use settings::render_settings_page;
pub use shortcuts::resolve_shortcut;
pub use shorttable::not_found_page;
pub use shorttable::render_shortcuts_table;
pub use sqlpages::render_connection_list;
pub use sqlpages::render_query_view;
pub use sqlpages::render_table_list;
pub use themes::default_dark_theme;
pub use themes::lookup_theme;
pub use themes::save_theme_entry;
pub use vault::decrypt_blob;
pub use vault::encrypt_blob;
pub use vault::ensure_key;

use vstd::prelude::*;

use crate::models::DbConnection;
use crate::models::Note;
use crate::models::Theme;
use crate::models::conns_view;
use crate::registry::add_or_update;
use crate::registry::find_connection;
use crate::registry::spec_find;
use crate::registry::spec_upsert;
use crate::results::export_csv;
use crate::results::cache_view;
use crate::results::export_records;
use crate::csvio::csv_encoding;

verus! {

/// The store every request handler works against: the shared collections
/// of the application, held as one value so that a caller can guard the
/// whole of it with a single lock and keep read-modify-persist sequences
/// in one critical section.
pub struct AppState {
    pub shortcuts: Vec<(String, String)>,
    pub hidden_shortcuts: Vec<(String, String)>,
    pub work_shortcuts: Vec<(String, String)>,
    pub notes: Vec<Note>,
    pub current_theme: Theme,
    pub saved_themes: Vec<(String, Theme)>,
    pub connections: Vec<DbConnection>,
    pub last_results: Vec<Vec<(String, String)>>,
}

impl AppState {
    /// Populate the connection registry from the vault's list on first
    /// use: a registry that already holds connections is left alone.
    pub fn ensure_connections(&mut self, loaded: Vec<DbConnection>)
        ensures
            final(self).connections@ == if old(self).connections@.len() == 0 {
                loaded@
            } else {
                old(self).connections@
            },
            final(self).last_results@ == old(self).last_results@,
    {
        if self.connections.len() == 0 {
            self.connections = loaded;
        }
    }

    /// Add a connection or update the one already carrying its nickname.
    /// The caller must re-persist the full list through the vault
    /// immediately, inside the same critical section.
    pub fn add_connection(&mut self, new_conn: DbConnection)
        ensures
            conns_view(final(self).connections@) == spec_upsert(
                conns_view(old(self).connections@),
                new_conn@,
            ),
            final(self).last_results@ == old(self).last_results@,
    {
        add_or_update(&mut self.connections, new_conn);
    }

    /// The connection registered under a nickname, if any.
    pub fn lookup_connection(&self, nick: &str) -> (r: Option<DbConnection>)
        ensures
            match r {
                Some(c) => spec_find(conns_view(self.connections@), nick@) == Some(c@),
                None => spec_find(conns_view(self.connections@), nick@) is None,
            },
    {
        match find_connection(nick, self.connections.as_slice()) {
            Some(c) => Some(c.clone()),
            None => None,
        }
    }

    /// Overwrite the single-slot result cache with the latest query's
    /// name-keyed rows; the previous contents are discarded.
    pub fn store_results(&mut self, rows: Vec<Vec<(String, String)>>)
        ensures
            final(self).last_results@ == rows@,
            final(self).connections@ == old(self).connections@,
    {
        self.last_results = rows;
    }

    /// Serialize the cached rows of the last query as CSV.
    pub fn export_last_results(&self) -> (r: String)
        ensures
            r@ == csv_encoding(export_records(cache_view(self.last_results@))),
            self.last_results@.len() == 0 ==> r@.len() == 0,
    {
        export_csv(&self.last_results)
    }
}

} // verus!

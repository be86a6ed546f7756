//! The trusted storage layer: the embedded `redb` database behind the
//! store, one table-content name per table, and one wrapper per table
//! transaction.
//!
//! Everything below that is marked `external_body` is trusted: its contract
//! states what the named `redb` calls do to the table contents, and the
//! verified store logic in `store.rs` is proved against those contracts
//! alone. Each wrapper runs one `redb` transaction; on any error the
//! transaction aborts, so the contents are unchanged.
//!
//! Tables (names and layouts):
//! - `users`: `u16 -> String` (id to username)
//! - `users_reverse`: `&str -> u16` (username to id)
//! - `groups`: `u16 -> (String, Vec<u16>)` (id to name and members)
//! - `messages`: `u16 -> (sender, kind, recipient id, body, time, tags)`
//! - `message_senders`: `(kind, recipient id, sender, message id) -> ()`,
//!   the delivery index; `kind` is 0 for a user recipient, 1 for a group,
//!   so index keys order by recipient kind, then recipient, then sender,
//!   then message id.

use vstd::prelude::*;

use redb::{ReadableTable, ReadableTableMetadata, TableDefinition};

use crate::model::{dec_rec, eps_group_ids, StoreModel};
use crate::types::MsgView;

verus! {

#[verifier::external_type_specification]
#[verifier::external_body]
pub struct ExDatabase(redb::Database);

/// The raw layout of one `messages` row:
/// `(sender, kind, recipient id, body, time, tags)`.
pub type MsgRow = (u16, u8, u16, String, i64, Vec<String>);

/// The raw layout of one delivery-index key:
/// `(kind, recipient id, sender, message id)`.
pub type EpRow = (u8, u16, u16, u16);

/// The persistent store: all durable state lives in the tables of this one
/// embedded database.
pub struct Store {
    pub(crate) db: redb::Database,
}

// The contents of each table, as mathematics. These names are given meaning
// only by the wrapper contracts below.
pub uninterp spec fn users_of(s: Store) -> Map<u16, Seq<char>>;

pub uninterp spec fn rev_of(s: Store) -> Map<Seq<char>, u16>;

pub uninterp spec fn groups_of(s: Store) -> Map<u16, crate::model::GroupView>;

pub uninterp spec fn msgs_of(s: Store) -> Map<u16, MsgView>;

pub uninterp spec fn eps_of(s: Store) -> Set<(crate::types::MessageRecipient, u16, u16)>;

impl Store {
    /// The whole store as mathematics: one map or set per table.
    pub open spec fn model(self) -> StoreModel {
        StoreModel {
            users: users_of(self),
            rev: rev_of(self),
            groups: groups_of(self),
            messages: msgs_of(self),
            endpoints: eps_of(self),
        }
    }

    /// The store's cross-table invariants hold of its contents.
    pub open spec fn wf(self) -> bool {
        crate::model::wf(self.model())
    }

    /// Initialize the store on the given path, or in memory if `path` is
    /// `None`.
    ///
    /// Relies on `redb::Database::create` and
    /// `redb::Database::builder().create_with_backend(InMemoryBackend)`:
    /// a fresh in-memory database has no tables, so every table reads as
    /// empty. A file path must point at a database file this store
    /// produced (or at no file yet); its tables then hold whatever was
    /// committed to them, which is all that is promised here.
    #[verifier::external_body]
    pub fn init(path: Option<&str>) -> (r: Result<Store, crate::types::StoreError>)
        ensures
            match r {
                Ok(s) => crate::model::model_finite(s.model()) && (path is None
                    ==> s.model() == crate::model::empty_model()),
                Err(e) => e is Internal,
            },
    {
        let db = match path {
            Some(p) => redb::Database::create(p).map_err(
                |e| crate::types::StoreError::Internal(e.to_string()),
            )?,
            None => redb::Database::builder().create_with_backend(
                redb::backends::InMemoryBackend::new(),
            ).map_err(|e| crate::types::StoreError::Internal(e.to_string()))?,
        };
        Ok(Store { db })
    }

    /// Relies on `Table::get` on the `users` table: returns the value
    /// stored under `id`; a table never created reads as empty.
    #[verifier::external_body]
    pub(crate) fn users_get(&self, id: u16) -> (r: Result<Option<String>, String>)
        ensures
            match r {
                Ok(Some(name)) => users_of(*self).contains_pair(id, name@),
                Ok(None) => !users_of(*self).dom().contains(id),
                Err(_) => true,
            },
    {
        (|| -> Result<Option<String>, Box<dyn std::error::Error>> {
            let tx = self.db.begin_read()?;
            match tx.open_table(TableDefinition::<u16, String>::new("users")) {
                Ok(t) => Ok(t.get(id)?.map(|v| v.value())),
                Err(redb::TableError::TableDoesNotExist(_)) => Ok(None),
                Err(e) => Err(e.into()),
            }
        })().map_err(|e| e.to_string())
    }

    /// Relies on `Table::get` on the `users_reverse` table.
    #[verifier::external_body]
    pub(crate) fn rev_get(&self, name: &str) -> (r: Result<Option<u16>, String>)
        ensures
            match r {
                Ok(Some(id)) => rev_of(*self).contains_pair(name@, id),
                Ok(None) => !rev_of(*self).dom().contains(name@),
                Err(_) => true,
            },
    {
        (|| -> Result<Option<u16>, Box<dyn std::error::Error>> {
            let tx = self.db.begin_read()?;
            match tx.open_table(TableDefinition::<&str, u16>::new("users_reverse")) {
                Ok(t) => Ok(t.get(name)?.map(|v| v.value())),
                Err(redb::TableError::TableDoesNotExist(_)) => Ok(None),
                Err(e) => Err(e.into()),
            }
        })().map_err(|e| e.to_string())
    }

    /// Relies on `ReadableTable::last` on the `users` table: the greatest
    /// key present, `None` when the table is empty.
    #[verifier::external_body]
    pub(crate) fn users_last(&self) -> (r: Result<Option<u16>, String>)
        ensures
            match r {
                Ok(Some(k)) => users_of(*self).dom().contains(k) && forall|k2: u16|
                    #[trigger] users_of(*self).dom().contains(k2) ==> k2 <= k,
                Ok(None) => forall|k2: u16| !(#[trigger] users_of(*self).dom().contains(k2)),
                Err(_) => true,
            },
    {
        (|| -> Result<Option<u16>, Box<dyn std::error::Error>> {
            let tx = self.db.begin_read()?;
            match tx.open_table(TableDefinition::<u16, String>::new("users")) {
                Ok(t) => Ok(t.last()?.map(|v| v.0.value())),
                Err(redb::TableError::TableDoesNotExist(_)) => Ok(None),
                Err(e) => Err(e.into()),
            }
        })().map_err(|e| e.to_string())
    }

    /// Relies on `Table::insert` on the `users` and `users_reverse`
    /// tables, in one committed transaction: both rows are written
    /// together, and nothing else changes.
    #[verifier::external_body]
    pub(crate) fn users_insert_pair(&mut self, id: u16, name: &str) -> (r: Result<(), String>)
        ensures
            match r {
                Ok(()) => users_of(*final(self)) == users_of(*old(self)).insert(id, name@)
                    && rev_of(*final(self)) == rev_of(*old(self)).insert(name@, id) && groups_of(*final(self)) == groups_of(*old(self)) && msgs_of(*final(self)) == msgs_of(*old(self))
                    && eps_of(*final(self)) == eps_of(*old(self)),
                Err(_) => *final(self) == *old(self),
            },
    {
        (|| -> Result<(), Box<dyn std::error::Error>> {
            let tx = self.db.begin_write()?;
            {
                let mut t = tx.open_table(TableDefinition::<u16, String>::new("users"))?;
                t.insert(id, name.to_owned())?;
                let mut r = tx.open_table(TableDefinition::<&str, u16>::new("users_reverse"))?;
                r.insert(name, id)?;
            }
            tx.commit()?;
            Ok(())
        })().map_err(|e| e.to_string())
    }

    /// Relies on `ReadableTable::iter` on the `users` table: every row,
    /// in ascending key order.
    #[verifier::external_body]
    pub(crate) fn users_list(&self) -> (r: Result<Vec<(u16, String)>, String>)
        ensures
            match r {
                Ok(v) => crate::model::listing_of_users(users_of(*self), v@),
                Err(_) => true,
            },
    {
        (|| -> Result<Vec<(u16, String)>, Box<dyn std::error::Error>> {
            let tx = self.db.begin_read()?;
            match tx.open_table(TableDefinition::<u16, String>::new("users")) {
                Ok(t) => {
                    let mut out = Vec::new();
                    for e in t.iter()? {
                        let (k, v) = e?;
                        out.push((k.value(), v.value()));
                    }
                    Ok(out)
                },
                Err(redb::TableError::TableDoesNotExist(_)) => Ok(Vec::new()),
                Err(e) => Err(e.into()),
            }
        })().map_err(|e| e.to_string())
    }

    /// Relies on `Table::get` on the `groups` table.
    #[verifier::external_body]
    pub(crate) fn groups_get(&self, gid: u16) -> (r: Result<Option<(String, Vec<u16>)>, String>)
        ensures
            match r {
                Ok(Some(g)) => groups_of(*self).contains_pair(
                    gid,
                    crate::model::GroupView { name: g.0@, members: g.1@ },
                ),
                Ok(None) => !groups_of(*self).dom().contains(gid),
                Err(_) => true,
            },
    {
        (|| -> Result<Option<(String, Vec<u16>)>, Box<dyn std::error::Error>> {
            let tx = self.db.begin_read()?;
            match tx.open_table(TableDefinition::<u16, (String, Vec<u16>)>::new("groups")) {
                Ok(t) => Ok(t.get(gid)?.map(|v| v.value())),
                Err(redb::TableError::TableDoesNotExist(_)) => Ok(None),
                Err(e) => Err(e.into()),
            }
        })().map_err(|e| e.to_string())
    }

    /// Relies on `ReadableTable::last` on the `groups` table.
    #[verifier::external_body]
    pub(crate) fn groups_last(&self) -> (r: Result<Option<u16>, String>)
        ensures
            match r {
                Ok(Some(k)) => groups_of(*self).dom().contains(k) && forall|k2: u16|
                    #[trigger] groups_of(*self).dom().contains(k2) ==> k2 <= k,
                Ok(None) => forall|k2: u16| !(#[trigger] groups_of(*self).dom().contains(k2)),
                Err(_) => true,
            },
    {
        (|| -> Result<Option<u16>, Box<dyn std::error::Error>> {
            let tx = self.db.begin_read()?;
            match tx.open_table(TableDefinition::<u16, (String, Vec<u16>)>::new("groups")) {
                Ok(t) => Ok(t.last()?.map(|v| v.0.value())),
                Err(redb::TableError::TableDoesNotExist(_)) => Ok(None),
                Err(e) => Err(e.into()),
            }
        })().map_err(|e| e.to_string())
    }

    /// Relies on `Table::insert` on the `groups` table, in one committed
    /// transaction: the row is written (replacing any previous row under
    /// `gid`), and nothing else changes.
    #[verifier::external_body]
    pub(crate) fn groups_insert(&mut self, gid: u16, name: &str, members: &Vec<u16>) -> (r: Result<
        (),
        String,
    >)
        ensures
            match r {
                Ok(()) => groups_of(*final(self)) == groups_of(*old(self)).insert(
                    gid,
                    crate::model::GroupView { name: name@, members: members@ },
                ) && users_of(*final(self)) == users_of(*old(self)) && rev_of(*final(self)) == rev_of(*old(self)) && msgs_of(*final(self)) == msgs_of(*old(self)) && eps_of(*final(self)) == eps_of(*old(self)),
                Err(_) => *final(self) == *old(self),
            },
    {
        (|| -> Result<(), Box<dyn std::error::Error>> {
            let tx = self.db.begin_write()?;
            {
                let mut t = tx.open_table(TableDefinition::<u16, (String, Vec<u16>)>::new("groups"))?;
                t.insert(gid, (name.to_owned(), members.clone()))?;
            }
            tx.commit()?;
            Ok(())
        })().map_err(|e| e.to_string())
    }

    /// Relies on `ReadableTable::iter` on the `groups` table: every row,
    /// in ascending key order.
    #[verifier::external_body]
    pub(crate) fn groups_list(&self) -> (r: Result<Vec<(u16, (String, Vec<u16>))>, String>)
        ensures
            match r {
                Ok(v) => crate::model::listing_of_groups(groups_of(*self), v@),
                Err(_) => true,
            },
    {
        (|| -> Result<Vec<(u16, (String, Vec<u16>))>, Box<dyn std::error::Error>> {
            let tx = self.db.begin_read()?;
            match tx.open_table(TableDefinition::<u16, (String, Vec<u16>)>::new("groups")) {
                Ok(t) => {
                    let mut out = Vec::new();
                    for e in t.iter()? {
                        let (k, v) = e?;
                        out.push((k.value(), v.value()));
                    }
                    Ok(out)
                },
                Err(redb::TableError::TableDoesNotExist(_)) => Ok(Vec::new()),
                Err(e) => Err(e.into()),
            }
        })().map_err(|e| e.to_string())
    }

    /// Relies on `Table::remove` on the `groups` table and
    /// `Table::extract_from_if` on the `message_senders` table, in one
    /// committed transaction: the group row goes, every index entry whose
    /// recipient prefix is this group goes, and so does every message row
    /// those entries point at — the atomic cascade.
    #[verifier::external_body]
    pub(crate) fn group_cascade_remove(&mut self, gid: u16) -> (r: Result<(), String>)
        ensures
            match r {
                Ok(()) => groups_of(*final(self)) == groups_of(*old(self)).remove(gid) && msgs_of(*final(self)) == msgs_of(*old(self)).remove_keys(eps_group_ids(eps_of(*old(self)), gid))
                    && eps_of(*final(self)) == eps_of(*old(self)).filter(
                    |k: (crate::types::MessageRecipient, u16, u16)|
                        k.0 != crate::types::MessageRecipient::Group(gid),
                ) && users_of(*final(self)) == users_of(*old(self)) && rev_of(*final(self)) == rev_of(*old(self)),
                Err(_) => *final(self) == *old(self),
            },
    {
        (|| -> Result<(), Box<dyn std::error::Error>> {
            let tx = self.db.begin_write()?;
            {
                tx.open_table(TableDefinition::<u16, (String, Vec<u16>)>::new("groups"))?.remove(gid)?;
                let mut eps = tx.open_table(TableDefinition::<EpRow, ()>::new("message_senders"))?;
                let mut msgs = tx.open_table(TableDefinition::<u16, MsgRow>::new("messages"))?;
                for entry in eps.extract_from_if((1u8, gid, 0, 0)..=(1u8, gid, u16::MAX, u16::MAX), |_, _| true)? {
                    msgs.remove(entry?.0.value().3)?;
                }
            }
            tx.commit()?;
            Ok(())
        })().map_err(|e| e.to_string())
    }

    /// Relies on `Table::get` on the `messages` table: the raw row stored
    /// under `id`, as `(sender, kind, recipient id, body, time, tags)`.
    #[verifier::external_body]
    pub(crate) fn msgs_get(&self, id: u16) -> (r: Result<
        Option<(u16, u8, u16, String, i64, Vec<String>)>,
        String,
    >)
        ensures
            match r {
                Ok(Some(row)) => row.1 <= 1 && msgs_of(*self).contains_pair(
                    id,
                    MsgView {
                        sender: row.0,
                        recipient: dec_rec(row.1, row.2),
                        body: row.3@,
                        time: row.4,
                        tags: row.5@.map_values(|t: String| t@),
                    },
                ),
                Ok(None) => !msgs_of(*self).dom().contains(id),
                Err(_) => true,
            },
    {
        (|| -> Result<Option<(u16, u8, u16, String, i64, Vec<String>)>, Box<dyn std::error::Error>> {
            let tx = self.db.begin_read()?;
            match tx.open_table(TableDefinition::<u16, MsgRow>::new("messages")) {
                Ok(t) => Ok(t.get(id)?.map(|v| v.value())),
                Err(redb::TableError::TableDoesNotExist(_)) => Ok(None),
                Err(e) => Err(e.into()),
            }
        })().map_err(|e| e.to_string())
    }

    /// Relies on `ReadableTable::last` on the `messages` table.
    #[verifier::external_body]
    pub(crate) fn msgs_last(&self) -> (r: Result<Option<u16>, String>)
        ensures
            match r {
                Ok(Some(k)) => msgs_of(*self).dom().contains(k) && forall|k2: u16|
                    #[trigger] msgs_of(*self).dom().contains(k2) ==> k2 <= k,
                Ok(None) => forall|k2: u16| !(#[trigger] msgs_of(*self).dom().contains(k2)),
                Err(_) => true,
            },
    {
        (|| -> Result<Option<u16>, Box<dyn std::error::Error>> {
            let tx = self.db.begin_read()?;
            match tx.open_table(TableDefinition::<u16, MsgRow>::new("messages")) {
                Ok(t) => Ok(t.last()?.map(|v| v.0.value())),
                Err(redb::TableError::TableDoesNotExist(_)) => Ok(None),
                Err(e) => Err(e.into()),
            }
        })().map_err(|e| e.to_string())
    }

    /// Relies on `Table::insert` on the `messages` and `message_senders`
    /// tables, in one committed transaction: the message row and its
    /// delivery-index entry are written together.
    #[verifier::external_body]
    pub(crate) fn msgs_insert_with_ep(
        &mut self,
        id: u16,
        kind: u8,
        rid: u16,
        sender: u16,
        body: &str,
        time: i64,
        tags: &Vec<String>,
    ) -> (r: Result<(), String>)
        requires
            kind <= 1,
        ensures
            match r {
                Ok(()) => msgs_of(*final(self)) == msgs_of(*old(self)).insert(
                    id,
                    MsgView {
                        sender,
                        recipient: dec_rec(kind, rid),
                        body: body@,
                        time,
                        tags: tags@.map_values(|t: String| t@),
                    },
                ) && eps_of(*final(self)) == eps_of(*old(self)).insert(
                    (dec_rec(kind, rid), sender, id),
                ) && users_of(*final(self)) == users_of(*old(self)) && rev_of(*final(self)) == rev_of(*old(self)) && groups_of(*final(self)) == groups_of(*old(self)),
                Err(_) => *final(self) == *old(self),
            },
    {
        (|| -> Result<(), Box<dyn std::error::Error>> {
            let tx = self.db.begin_write()?;
            {
                let mut t = tx.open_table(TableDefinition::<u16, MsgRow>::new("messages"))?;
                t.insert(id, (sender, kind, rid, body.to_owned(), time, tags.clone()))?;
                let mut ep = tx.open_table(TableDefinition::<EpRow, ()>::new("message_senders"))?;
                ep.insert((kind, rid, sender, id), ())?;
            }
            tx.commit()?;
            Ok(())
        })().map_err(|e| e.to_string())
    }

    /// Relies on `Table::insert` on the `messages` table, in one committed
    /// transaction: the message row is replaced, the delivery index is not
    /// touched.
    #[verifier::external_body]
    pub(crate) fn msgs_put(
        &mut self,
        id: u16,
        kind: u8,
        rid: u16,
        sender: u16,
        body: &str,
        time: i64,
        tags: &Vec<String>,
    ) -> (r: Result<(), String>)
        requires
            kind <= 1,
        ensures
            match r {
                Ok(()) => msgs_of(*final(self)) == msgs_of(*old(self)).insert(
                    id,
                    MsgView {
                        sender,
                        recipient: dec_rec(kind, rid),
                        body: body@,
                        time,
                        tags: tags@.map_values(|t: String| t@),
                    },
                ) && eps_of(*final(self)) == eps_of(*old(self)) && users_of(*final(self)) == users_of(*old(self)) && rev_of(*final(self)) == rev_of(*old(self)) && groups_of(*final(self)) == groups_of(*old(self)),
                Err(_) => *final(self) == *old(self),
            },
    {
        (|| -> Result<(), Box<dyn std::error::Error>> {
            let tx = self.db.begin_write()?;
            {
                let mut t = tx.open_table(TableDefinition::<u16, MsgRow>::new("messages"))?;
                t.insert(id, (sender, kind, rid, body.to_owned(), time, tags.clone()))?;
            }
            tx.commit()?;
            Ok(())
        })().map_err(|e| e.to_string())
    }

    /// Relies on `Table::remove` on the `messages` and `message_senders`
    /// tables, in one committed transaction: the message row and its
    /// delivery-index entry are removed together.
    #[verifier::external_body]
    pub(crate) fn msgs_remove_with_ep(&mut self, id: u16, kind: u8, rid: u16, sender: u16) -> (r:
        Result<(), String>)
        requires
            kind <= 1,
        ensures
            match r {
                Ok(()) => msgs_of(*final(self)) == msgs_of(*old(self)).remove(id) && eps_of(*final(self))
                    == eps_of(*old(self)).remove((dec_rec(kind, rid), sender, id)) && users_of(*final(self)) == users_of(*old(self)) && rev_of(*final(self)) == rev_of(*old(self))
                    && groups_of(*final(self)) == groups_of(*old(self)),
                Err(_) => *final(self) == *old(self),
            },
    {
        (|| -> Result<(), Box<dyn std::error::Error>> {
            let tx = self.db.begin_write()?;
            {
                let mut t = tx.open_table(TableDefinition::<u16, MsgRow>::new("messages"))?;
                t.remove(id)?;
                let mut ep = tx.open_table(TableDefinition::<EpRow, ()>::new("message_senders"))?;
                ep.remove((kind, rid, sender, id))?;
            }
            tx.commit()?;
            Ok(())
        })().map_err(|e| e.to_string())
    }

    /// Relies on `ReadableTableMetadata::len` on the `messages` table.
    #[verifier::external_body]
    pub(crate) fn msgs_len(&self) -> (r: Result<u64, String>)
        ensures
            match r {
                Ok(n) => n as nat == msgs_of(*self).dom().len(),
                Err(_) => true,
            },
    {
        (|| -> Result<u64, Box<dyn std::error::Error>> {
            let tx = self.db.begin_read()?;
            match tx.open_table(TableDefinition::<u16, MsgRow>::new("messages")) {
                Ok(t) => Ok(t.len()?),
                Err(redb::TableError::TableDoesNotExist(_)) => Ok(0),
                Err(e) => Err(e.into()),
            }
        })().map_err(|e| e.to_string())
    }

    /// Relies on `ReadableTableMetadata::len` on the `message_senders`
    /// table.
    #[verifier::external_body]
    pub(crate) fn eps_len(&self) -> (r: Result<u64, String>)
        ensures
            match r {
                Ok(n) => n as nat == eps_of(*self).len(),
                Err(_) => true,
            },
    {
        (|| -> Result<u64, Box<dyn std::error::Error>> {
            let tx = self.db.begin_read()?;
            match tx.open_table(TableDefinition::<EpRow, ()>::new("message_senders")) {
                Ok(t) => Ok(t.len()?),
                Err(redb::TableError::TableDoesNotExist(_)) => Ok(0),
                Err(e) => Err(e.into()),
            }
        })().map_err(|e| e.to_string())
    }
}

/// Relies on `chrono::Utc::now().timestamp()`: the current Unix time in
/// seconds. The result depends on the clock, so nothing is promised of it.
#[verifier::external_body]
pub(crate) fn now_timestamp() -> i64 {
    chrono::Utc::now().timestamp()
}

} // verus!

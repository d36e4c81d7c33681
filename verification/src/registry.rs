//! The connection registry: the single source of truth for which
//! connections are live and which authenticated identity each one carries.
//!
//! A live connection is named by an opaque integer handle that the
//! surrounding runtime assigns (one per accepted transport connection); the
//! runtime also maps each handle to that connection's outbound channel, so a
//! handle in an outbound push names the channel to deliver on.

use vstd::prelude::*;

use crate::protocol::seq_contains_name;

verus! {

/// One live binding between a connection and the authenticated identity
/// using it.
pub struct RegistryEntry {
    pub conn: u64,
    pub username: String,
    pub session_id: String,
}

/// The mathematical value of a [`RegistryEntry`].
#[verifier::ext_equal]
pub struct EntryView {
    pub conn: u64,
    pub username: Seq<char>,
    pub session_id: Seq<char>,
}

impl View for RegistryEntry {
    type V = EntryView;

    open spec fn view(&self) -> EntryView {
        EntryView { conn: self.conn, username: self.username@, session_id: self.session_id@ }
    }
}

/// Whether some entry in `s` is for connection `conn`.
pub open spec fn has_conn(s: Seq<EntryView>, conn: u64) -> bool {
    exists|i: int| 0 <= i < s.len() && s[i].conn == conn
}

/// The entry in `s` for connection `conn` (meaningful when `has_conn` holds
/// and connection handles are unique).
pub open spec fn entry_for(s: Seq<EntryView>, conn: u64) -> EntryView {
    s[choose|i: int| 0 <= i < s.len() && s[i].conn == conn]
}

/// Whether some entry in `s` belongs to the user named `name`: whether that
/// user is online.
pub open spec fn user_online(s: Seq<EntryView>, name: Seq<char>) -> bool {
    exists|i: int| 0 <= i < s.len() && s[i].username == name
}

/// The connection handle of the first entry belonging to the user named
/// `name`, if any: the channel a single-recipient push is delivered on.
pub open spec fn first_conn(s: Seq<EntryView>, name: Seq<char>) -> Option<u64>
    decreases s.len(),
{
    if s.len() == 0 {
        None
    } else if s.first().username == name {
        Some(s.first().conn)
    } else {
        first_conn(s.drop_first(), name)
    }
}

/// The predicate "this entry is not for connection `conn`", used to state
/// removals.
pub open spec fn conn_is_not(conn: u64) -> spec_fn(EntryView) -> bool {
    |e: EntryView| e.conn != conn
}

/// Why a registry mutation was refused.
#[derive(Debug)]
pub enum RegistryError {
    /// The connection identity is already registered.
    AlreadyRegistered,
}

/// The concurrent map from live-connection identity to authenticated
/// identity. The surrounding runtime serialises access (one exclusive
/// operation at a time, never held across I/O); the operations here are the
/// critical sections.
pub struct Registry {
    entries: Vec<RegistryEntry>,
}

impl View for Registry {
    type V = Seq<EntryView>;

    closed spec fn view(&self) -> Seq<EntryView> {
        self.entries@.map_values(|e: RegistryEntry| e@)
    }
}

impl Registry {
    /// The registry invariant: exactly one entry per live connection.
    pub open spec fn wf(self) -> bool {
        forall|i: int, j: int| 0 <= i < j < self@.len() ==> self@[i].conn != self@[j].conn
    }

    /// An empty registry: nobody is online.
    pub fn new() -> (r: Registry)
        ensures
            r@ == Seq::<EntryView>::empty(),
            r.wf(),
    {
        let r = Registry { entries: Vec::new() };
        proof {
            assert(r@ =~= Seq::<EntryView>::empty());
        }
        r
    }

    /// Returns whether connection `conn` is registered.
    pub fn contains(&self, conn: u64) -> (r: bool)
        ensures
            r == has_conn(self@, conn),
    {
        let mut i: usize = 0;
        while i < self.entries.len()
            invariant
                i <= self.entries@.len(),
                self@ == self.entries@.map_values(|e: RegistryEntry| e@),
                forall|j: int| 0 <= j < i ==> self@[j].conn != conn,
            decreases self.entries@.len() - i,
        {
            if self.entries[i].conn == conn {
                proof {
                    assert(self@[i as int].conn == conn);
                }
                return true;
            }
            i = i + 1;
        }
        false
    }

    /// Looks up the entry for connection `conn`.
    pub fn lookup_by_connection(&self, conn: u64) -> (r: Option<&RegistryEntry>)
        requires
            self.wf(),
        ensures
            match r {
                Some(e) => has_conn(self@, conn) && e@ == entry_for(self@, conn) && e@.conn
                    == conn,
                None => !has_conn(self@, conn),
            },
    {
        let mut i: usize = 0;
        while i < self.entries.len()
            invariant
                i <= self.entries@.len(),
                self@ == self.entries@.map_values(|e: RegistryEntry| e@),
                self.wf(),
                forall|j: int| 0 <= j < i ==> self@[j].conn != conn,
            decreases self.entries@.len() - i,
        {
            if self.entries[i].conn == conn {
                proof {
                    assert(self@[i as int].conn == conn);
                    let w = choose|k: int| 0 <= k < self@.len() && self@[k].conn == conn;
                    assert(self@[w].conn == conn);
                    assert(w == i as int);
                }
                return Some(&self.entries[i]);
            }
            i = i + 1;
        }
        None
    }

    /// Installs an entry for connection `conn`. Fails, leaving every entry
    /// untouched, when `conn` is already registered.
    pub fn register(&mut self, conn: u64, username: String, session_id: String) -> (r: Result<
        (),
        RegistryError,
    >)
        requires
            old(self).wf(),
        ensures
            final(self).wf(),
            match r {
                Ok(()) => !has_conn(old(self)@, conn) && final(self)@ == old(self)@.push(
                    EntryView { conn, username: username@, session_id: session_id@ },
                ),
                Err(RegistryError::AlreadyRegistered) => has_conn(old(self)@, conn)
                    && final(self)@ == old(self)@,
            },
    {
        if self.contains(conn) {
            return Err(RegistryError::AlreadyRegistered);
        }
        let e = RegistryEntry { conn, username, session_id };
        self.entries.push(e);
        proof {
            assert(self@ =~= old(self)@.push(
                EntryView { conn, username: username@, session_id: session_id@ },
            ));
        }
        Ok(())
    }

    /// Removes the entry for connection `conn`, and no other; a no-op when
    /// `conn` is not registered.
    pub fn deregister(&mut self, conn: u64)
        requires
            old(self).wf(),
        ensures
            final(self).wf(),
            final(self)@ == old(self)@.filter(conn_is_not(conn)),
    {
        let ghost views = self@;
        let mut kept: Vec<RegistryEntry> = Vec::new();
        let mut i: usize = 0;
        while i < self.entries.len()
            invariant
                i <= self.entries@.len(),
                views == self.entries@.map_values(|e: RegistryEntry| e@),
                kept@.map_values(|e: RegistryEntry| e@) == views.take(i as int).filter(
                    conn_is_not(conn),
                ),
            decreases self.entries@.len() - i,
        {
            let ghost pre = kept@.map_values(|e: RegistryEntry| e@);
            let keep = self.entries[i].conn != conn;
            if keep {
                let e = &self.entries[i];
                kept.push(
                    RegistryEntry {
                        conn: e.conn,
                        username: e.username.clone(),
                        session_id: e.session_id.clone(),
                    },
                );
            }
            proof {
                reveal(Seq::filter);
                assert(views.take(i as int + 1).drop_last() =~= views.take(i as int));
                assert(views.take(i as int + 1).last() == views[i as int]);
                if keep {
                    assert(kept@.map_values(|e: RegistryEntry| e@) =~= pre.push(
                        views[i as int],
                    ));
                }
            }
            i = i + 1;
        }
        proof {
            assert(views.take(self.entries@.len() as int) =~= views);
        }
        self.entries = kept;
        proof {
            lemma_filter_keeps_distinct_conns(views, conn);
        }
    }

    /// The first registered connection of the user named `name`, if any.
    pub fn first_conn_of(&self, name: &String) -> (r: Option<u64>)
        ensures
            r == first_conn(self@, name@),
            r is Some <==> user_online(self@, name@),
    {
        let mut i: usize = 0;
        proof {
            assert(self@.skip(0) =~= self@);
        }
        while i < self.entries.len()
            invariant
                i <= self.entries@.len(),
                self@ == self.entries@.map_values(|e: RegistryEntry| e@),
                first_conn(self@, name@) == first_conn(self@.skip(i as int), name@),
                forall|j: int| 0 <= j < i ==> self@[j].username != name@,
            decreases self.entries@.len() - i,
        {
            proof {
                assert(self@.skip(i as int).first() == self@[i as int]);
                assert(self@.skip(i as int).drop_first() =~= self@.skip(i as int + 1));
            }
            if self.entries[i].username == *name {
                proof {
                    assert(self@[i as int].username == name@);
                }
                return Some(self.entries[i].conn);
            }
            i = i + 1;
        }
        proof {
            assert(self@.skip(self@.len() as int) =~= Seq::<EntryView>::empty());
            if user_online(self@, name@) {
                let w = choose|j: int| 0 <= j < self@.len() && self@[j].username == name@;
                assert(self@[w].username == name@);
            }
        }
        None
    }

    /// Every registered connection of the user named `name`, in registration
    /// order.
    pub fn lookup_by_username(&self, name: &String) -> (r: Vec<u64>)
        ensures
            r@ == self@.filter(user_is(name@)).map_values(|e: EntryView| e.conn),
    {
        let ghost views = self@;
        let mut r: Vec<u64> = Vec::new();
        let mut i: usize = 0;
        while i < self.entries.len()
            invariant
                i <= self.entries@.len(),
                views == self.entries@.map_values(|e: RegistryEntry| e@),
                r@ == views.take(i as int).filter(user_is(name@)).map_values(
                    |e: EntryView| e.conn,
                ),
            decreases self.entries@.len() - i,
        {
            let ghost pre = views.take(i as int).filter(user_is(name@));
            let keep = self.entries[i].username == *name;
            if keep {
                r.push(self.entries[i].conn);
            }
            proof {
                reveal(Seq::filter);
                assert(views.take(i as int + 1).drop_last() =~= views.take(i as int));
                assert(views.take(i as int + 1).last() == views[i as int]);
                if keep {
                    assert(views.take(i as int + 1).filter(user_is(name@)) == pre.push(
                        views[i as int],
                    ));
                    assert(r@ =~= pre.push(views[i as int]).map_values(|e: EntryView| e.conn));
                }
            }
            i = i + 1;
        }
        proof {
            assert(views.take(self.entries@.len() as int) =~= views);
        }
        r
    }
}

/// The predicate "this entry belongs to the user named `name`".
pub open spec fn user_is(name: Seq<char>) -> spec_fn(EntryView) -> bool {
    |e: EntryView| e.username == name
}

/// Removing entries never introduces a duplicate connection handle.
proof fn lemma_filter_keeps_distinct_conns(s: Seq<EntryView>, conn: u64)
    requires
        forall|i: int, j: int| 0 <= i < j < s.len() ==> s[i].conn != s[j].conn,
    ensures
        forall|i: int, j: int|
            0 <= i < j < s.filter(conn_is_not(conn)).len() ==> s.filter(conn_is_not(conn))[i].conn
                != s.filter(conn_is_not(conn))[j].conn,
    decreases s.len(),
{
    reveal(Seq::filter);
    if s.len() > 0 {
        let su = s.drop_last();
        lemma_filter_keeps_distinct_conns(su, conn);
        let f = s.filter(conn_is_not(conn));
        let fu = su.filter(conn_is_not(conn));
        assert forall|i: int, j: int| 0 <= i < j < f.len() implies f[i].conn != f[j].conn by {
            if s.last().conn != conn && j == f.len() - 1 {
                lemma_filter_mem_entries(su, conn_is_not(conn), i);
                let k = choose|k: int| 0 <= k < su.len() && su[k] == fu[i];
                assert(s[k] == f[i]);
                assert(s[k].conn != s.last().conn);
            } else {
                assert(f[i] == fu[i] && f[j] == fu[j]);
            }
        }
    }
}

/// Every element of a filtered entry sequence occurs in the original
/// sequence.
proof fn lemma_filter_mem_entries(s: Seq<EntryView>, pred: spec_fn(EntryView) -> bool, i: int)
    requires
        0 <= i < s.filter(pred).len(),
    ensures
        (exists|j: int| 0 <= j < s.len() && s[j] == s.filter(pred)[i]),
    decreases s.len(),
{
    reveal(Seq::filter);
    if s.len() > 0 {
        if pred(s.last()) && i == s.filter(pred).len() - 1 {
            assert(s[s.len() - 1] == s.filter(pred)[i]);
        } else {
            lemma_filter_mem_entries(s.drop_last(), pred, i);
            let j = choose|j: int|
                0 <= j < s.drop_last().len() && s.drop_last()[j] == s.drop_last().filter(pred)[i];
            assert(s[j] == s.filter(pred)[i]);
        }
    }
}

/// Registering a fresh connection and then deregistering it restores the
/// registry to exactly its previous entries: the `Disconnect` after a
/// successful `Register` removes that entry and no other.
pub proof fn lemma_register_then_deregister(s: Seq<EntryView>, e: EntryView)
    requires
        !has_conn(s, e.conn),
    ensures
        s.push(e).filter(conn_is_not(e.conn)) == s,
    decreases s.len(),
{
    reveal(Seq::filter);
    assert(s.push(e).drop_last() =~= s);
    lemma_filter_no_conn_identity(s, e.conn);
}

/// Filtering out a connection that holds no entry changes nothing.
proof fn lemma_filter_no_conn_identity(s: Seq<EntryView>, conn: u64)
    requires
        !has_conn(s, conn),
    ensures
        s.filter(conn_is_not(conn)) == s,
    decreases s.len(),
{
    reveal(Seq::filter);
    if s.len() > 0 {
        let su = s.drop_last();
        assert(forall|i: int| 0 <= i < su.len() ==> su[i] == s[i]);
        assert(!has_conn(su, conn)) by {
            if has_conn(su, conn) {
                let w = choose|i: int| 0 <= i < su.len() && su[i].conn == conn;
                assert(s[w].conn == conn);
            }
        }
        lemma_filter_no_conn_identity(su, conn);
        assert(s[s.len() - 1].conn != conn);
        assert(s.filter(conn_is_not(conn)) =~= s);
    }
}

} // verus!

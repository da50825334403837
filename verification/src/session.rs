//! Sessions: what one client's session holds, and the store that keeps the
//! session records.

use crate::error::AppError;
use crate::webauthn::{clone_authentication, clone_registration};
use vstd::prelude::*;
use webauthn_rs::prelude::{PasskeyAuthentication, PasskeyRegistration};

verus! {

/// What a session holds: who the client claims to be, whether the client
/// is logged in, where to send the client after logging in, and the state
/// of at most one registration and one authentication in progress.
#[derive(Debug)]
pub struct Session {
    pub username: Option<String>,
    pub logged_in: bool,
    pub redirect_url: Option<String>,
    pub passkey_registration: Option<PasskeyRegistration>,
    pub passkey_authentication: Option<PasskeyAuthentication>,
}

/// The mathematical value of a [`Session`].
pub ghost struct SessionView {
    pub username: Option<Seq<char>>,
    pub logged_in: bool,
    pub redirect_url: Option<Seq<char>>,
    pub passkey_registration: Option<PasskeyRegistration>,
    pub passkey_authentication: Option<PasskeyAuthentication>,
}

/// The value of a piece of text that may be absent.
pub open spec fn text_view(text: Option<String>) -> Option<Seq<char>> {
    match text {
        Some(t) => Some(t@),
        None => None,
    }
}

impl View for Session {
    type V = SessionView;

    open spec fn view(&self) -> SessionView {
        SessionView {
            username: text_view(self.username),
            logged_in: self.logged_in,
            redirect_url: text_view(self.redirect_url),
            passkey_registration: self.passkey_registration,
            passkey_authentication: self.passkey_authentication,
        }
    }
}

impl SessionView {
    /// The session of a client that has not been seen before.
    pub open spec fn fresh() -> SessionView {
        SessionView {
            username: None,
            logged_in: false,
            redirect_url: None,
            passkey_registration: None,
            passkey_authentication: None,
        }
    }
}

/// A copy of a piece of text that may be absent.
fn clone_text(text: &Option<String>) -> (copy: Option<String>)
    ensures
        text_view(copy) == text_view(*text),
{
    match text {
        Some(t) => Some(t.clone()),
        None => None,
    }
}

impl Session {
    /// The session of a client that has not been seen before: no claim,
    /// not logged in, nothing in progress.
    pub fn new() -> (session: Session)
        ensures
            session@ == SessionView::fresh(),
    {
        Session {
            username: None,
            logged_in: false,
            redirect_url: None,
            passkey_registration: None,
            passkey_authentication: None,
        }
    }
}

impl Clone for Session {
    fn clone(&self) -> (copy: Self)
        ensures
            copy@ == self@,
    {
        Session {
            username: clone_text(&self.username),
            logged_in: self.logged_in,
            redirect_url: clone_text(&self.redirect_url),
            passkey_registration: match &self.passkey_registration {
                Some(state) => Some(clone_registration(state)),
                None => None,
            },
            passkey_authentication: match &self.passkey_authentication {
                Some(state) => Some(clone_authentication(state)),
                None => None,
            },
        }
    }
}

/// A session as the store keeps it: the session's identifier, what the
/// session holds, and the time (in seconds since the epoch) at which it
/// expires.
#[derive(Debug)]
pub struct Record {
    pub id: String,
    pub data: Session,
    pub expiry_date: i64,
}

/// The mathematical value of a [`Record`].
pub ghost struct RecordView {
    pub id: Seq<char>,
    pub data: SessionView,
    pub expiry_date: i64,
}

impl View for Record {
    type V = RecordView;

    open spec fn view(&self) -> RecordView {
        RecordView { id: self.id@, data: self.data@, expiry_date: self.expiry_date }
    }
}

impl Clone for Record {
    fn clone(&self) -> (copy: Self)
        ensures
            copy@ == self@,
    {
        Record { id: self.id.clone(), data: self.data.clone(), expiry_date: self.expiry_date }
    }
}

impl RecordView {
    /// Whether the record is still valid at the time `now`.
    pub open spec fn live_at(self, now: i64) -> bool {
        self.expiry_date > now
    }
}

/// Hands a stored record on only while it is valid: a record whose
/// expiry date is not after the time `now` counts as absent. Both times
/// are in seconds since the epoch.
pub fn unexpired<T>(record: T, expiry_date: i64, now: i64) -> (live: Option<T>)
    ensures
        live == if expiry_date > now {
            Some(record)
        } else {
            None
        },
{
    if expiry_date > now {
        Some(record)
    } else {
        None
    }
}

/// What a load returned, as values.
pub open spec fn record_outcome(r: Result<Option<Record>, AppError>) -> Result<
    Option<RecordView>,
    AppError,
> {
    match r {
        Ok(Some(record)) => Ok(Some(record@)),
        Ok(None) => Ok(None),
        Err(e) => Err(e),
    }
}

/// The `sessions` table: one record for each identifier. `ready` says
/// whether the table has been created.
pub ghost struct Sessions {
    pub ready: bool,
    pub records: Map<Seq<char>, RecordView>,
}

impl Sessions {
    /// A store in which the table does not exist yet.
    pub open spec fn blank() -> Sessions {
        Sessions { ready: false, records: Map::empty() }
    }

    /// Nothing is stored before the table exists, and each record is
    /// kept under its own identifier.
    pub open spec fn wf(self) -> bool {
        &&& !self.ready ==> self.records == Map::<Seq<char>, RecordView>::empty()
        &&& forall|id: Seq<char>| #[trigger]
            self.records.dom().contains(id) ==> self.records[id].id == id
    }

    /// The table once it has been created: records stay as they are.
    pub open spec fn created(self) -> Sessions {
        Sessions { ready: true, ..self }
    }

    /// What emptying the table does.
    pub open spec fn clear(self) -> (Sessions, Result<(), AppError>) {
        if !self.ready {
            (self, Err(AppError::StorageError))
        } else {
            (Sessions { records: Map::empty(), ..self }, Ok(()))
        }
    }

    /// What saving a record does: it takes the place of whatever was
    /// stored under its identifier.
    pub open spec fn save(self, record: RecordView) -> (Sessions, Result<(), AppError>) {
        if !self.ready {
            (self, Err(AppError::StorageError))
        } else {
            (Sessions { records: self.records.insert(record.id, record), ..self }, Ok(()))
        }
    }

    /// What loading by identifier returns at the time `now`: the stored
    /// record, or nothing where the identifier is unknown or its record
    /// has expired.
    pub open spec fn load(self, id: Seq<char>, now: i64) -> Result<Option<RecordView>, AppError> {
        if !self.ready {
            Err(AppError::StorageError)
        } else if self.records.dom().contains(id) && self.records[id].live_at(now) {
            Ok(Some(self.records[id]))
        } else {
            Ok(None)
        }
    }

    /// What deleting by identifier does: the record leaves, and an
    /// unknown identifier is no error.
    pub open spec fn delete(self, id: Seq<char>) -> (Sessions, Result<(), AppError>) {
        if !self.ready {
            (self, Err(AppError::StorageError))
        } else {
            (Sessions { records: self.records.remove(id), ..self }, Ok(()))
        }
    }
}

/// The records that a list of rows with distinct identifiers stands for.
spec fn records_of(rows: Seq<Record>) -> Map<Seq<char>, RecordView> {
    Map::new(
        |id: Seq<char>| exists|i: int| 0 <= i < rows.len() && (#[trigger] rows[i]).id@ == id,
        |id: Seq<char>|
            rows[choose|i: int| 0 <= i < rows.len() && (#[trigger] rows[i]).id@ == id]@,
    )
}

/// No two rows have the same identifier.
spec fn distinct_ids(rows: Seq<Record>) -> bool {
    forall|i: int, j: int|
        0 <= i < rows.len() && 0 <= j < rows.len() && (#[trigger] rows[i]).id@ == (
        #[trigger] rows[j]).id@ ==> i == j
}

/// Row `i` is what the table holds under that row's identifier.
proof fn lemma_row(rows: Seq<Record>, i: int)
    requires
        distinct_ids(rows),
        0 <= i < rows.len(),
    ensures
        records_of(rows).dom().contains(rows[i].id@),
        records_of(rows)[rows[i].id@] == rows[i]@,
{
    let id = rows[i].id@;
    let k = choose|k: int| 0 <= k < rows.len() && (#[trigger] rows[k]).id@ == id;
    assert(rows[k].id@ == rows[i].id@);
}

/// The session store: the `sessions` table of the service's SQLite
/// database, with its rules, held in memory.
///
/// It keeps one record for each session identifier. Identifiers come from
/// the session layer; the store never makes one up.
pub struct SqliteSessionStore {
    ready: bool,
    rows: Vec<Record>,
}

impl View for SqliteSessionStore {
    type V = Sessions;

    closed spec fn view(&self) -> Sessions {
        Sessions { ready: self.ready, records: records_of(self.rows@) }
    }
}

impl SqliteSessionStore {
    /// What holds of every store: no identifier occurs twice, and nothing
    /// is stored before the table exists.
    #[verifier::type_invariant]
    pub closed spec fn consistent(self) -> bool {
        &&& distinct_ids(self.rows@)
        &&& !self.ready ==> self.rows.len() == 0
    }

    /// A store whose table has not been created yet.
    pub fn new() -> (store: SqliteSessionStore)
        ensures
            store@ == Sessions::blank(),
            store@.wf(),
    {
        let store = SqliteSessionStore { ready: false, rows: Vec::new() };
        assert(store@.records =~= Map::empty());
        store
    }

    /// Moves the rows out and leaves a blank store behind.
    fn take(&mut self) -> (store: SqliteSessionStore)
        ensures
            store == *old(self),
    {
        let mut store = SqliteSessionStore::new();
        core::mem::swap(self, &mut store);
        store
    }

    /// Where the record with this identifier stands among the rows.
    fn position(&self, session_id: &String) -> (found: Option<usize>)
        ensures
            found is Some <==> self@.records.dom().contains(session_id@),
            found matches Some(i) ==> i < self.rows.len() && self.rows[i as int].id@
                == session_id@ && self@.records[session_id@] == self.rows[i as int]@,
    {
        proof {
            use_type_invariant(self);
        }
        let mut i: usize = 0;
        while i < self.rows.len()
            invariant
                distinct_ids(self.rows@),
                i <= self.rows.len(),
                forall|j: int| 0 <= j < i ==> self.rows[j].id@ != session_id@,
            decreases self.rows.len() - i,
        {
            if self.rows[i].id == *session_id {
                proof {
                    lemma_row(self.rows@, i as int);
                }
                return Some(i);
            }
            i += 1;
        }
        None
    }

    /// Creates the table where it does not exist yet. Stored records stay
    /// as they are, so a second call changes nothing.
    pub fn init(&mut self) -> (done: Result<(), AppError>)
        ensures
            done is Ok,
            final(self)@ == old(self)@.created(),
    {
        proof {
            use_type_invariant(&*self);
        }
        self.ready = true;
        Ok(())
    }

    /// Removes every record.
    pub fn clear(&mut self) -> (done: Result<(), AppError>)
        ensures
            (final(self)@, done) == old(self)@.clear(),
    {
        if !self.ready {
            return Err(AppError::StorageError);
        }
        *self = SqliteSessionStore { ready: true, rows: Vec::new() };
        assert(self@.records =~= Map::empty());
        Ok(())
    }

    /// Stores a new session's record under its identifier, as
    /// [`SqliteSessionStore::save`] does.
    pub fn create(&mut self, session_record: &Record) -> (done: Result<(), AppError>)
        ensures
            (final(self)@, done) == old(self)@.save(session_record@),
    {
        self.save(session_record)
    }

    /// Stores the record under its identifier. What was stored under that
    /// identifier before is replaced: the last writer wins.
    pub fn save(&mut self, session_record: &Record) -> (done: Result<(), AppError>)
        ensures
            (final(self)@, done) == old(self)@.save(session_record@),
    {
        proof {
            use_type_invariant(&*self);
        }
        if !self.ready {
            return Err(AppError::StorageError);
        }
        let ghost before = self@;
        let ghost old_rows = self.rows@;
        let found = self.position(&session_record.id);
        let SqliteSessionStore { ready, mut rows } = self.take();
        let copy = session_record.clone();
        match found {
            Some(i) => {
                rows.set(i, copy);
            },
            None => {
                rows.push(copy);
            },
        }
        proof {
            let target = session_record.id@;
            assert(distinct_ids(rows@));
            assert forall|id: Seq<char>|
                records_of(rows@).dom().contains(id) <==> before.records.insert(
                    target,
                    session_record@,
                ).dom().contains(id) by {
                if records_of(rows@).dom().contains(id) {
                    let k = choose|k: int| 0 <= k < rows.len() && (#[trigger] rows[k]).id@ == id;
                    if id != target {
                        assert(old_rows[k].id@ == id);
                    }
                }
                if before.records.dom().contains(id) && id != target {
                    let k = choose|k: int|
                        0 <= k < old_rows.len() && (#[trigger] old_rows[k]).id@ == id;
                    assert(rows[k].id@ == id);
                }
                if id == target {
                    match found {
                        Some(i) => {
                            assert(rows[i as int].id@ == id);
                        },
                        None => {
                            assert(rows[rows.len() - 1].id@ == id);
                        },
                    }
                }
            }
            assert forall|id: Seq<char>| #[trigger]
                records_of(rows@).dom().contains(id) implies records_of(rows@)[id]
                == before.records.insert(target, session_record@)[id] by {
                let k = choose|k: int| 0 <= k < rows.len() && (#[trigger] rows[k]).id@ == id;
                lemma_row(rows@, k);
                if id != target {
                    assert(old_rows[k].id@ == id);
                    lemma_row(old_rows, k);
                }
            }
            assert(records_of(rows@) =~= before.records.insert(target, session_record@));
        }
        *self = SqliteSessionStore { ready, rows };
        Ok(())
    }

    /// The record stored under this identifier, if it is still valid at
    /// the time `now`. An unknown identifier and an expired record both
    /// give `None`; neither is an error.
    pub fn load(&self, session_id: &String, now: i64) -> (loaded: Result<Option<Record>, AppError>)
        ensures
            record_outcome(loaded) == self@.load(session_id@, now),
    {
        if !self.ready {
            return Err(AppError::StorageError);
        }
        match self.position(session_id) {
            Some(i) => Ok(unexpired(self.rows[i].clone(), self.rows[i].expiry_date, now)),
            None => Ok(None),
        }
    }

    /// Removes the record stored under this identifier, if there is one.
    pub fn delete(&mut self, session_id: &String) -> (done: Result<(), AppError>)
        ensures
            (final(self)@, done) == old(self)@.delete(session_id@),
    {
        proof {
            use_type_invariant(&*self);
        }
        if !self.ready {
            return Err(AppError::StorageError);
        }
        let ghost before = self@;
        let ghost old_rows = self.rows@;
        let found = self.position(session_id);
        match found {
            Some(i) => {
                let SqliteSessionStore { ready, mut rows } = self.take();
                rows.remove(i);
                proof {
                    let target = session_id@;
                    assert(rows@ == old_rows.remove(i as int));
                    assert forall|a: int, b: int|
                        0 <= a < rows.len() && 0 <= b < rows.len() && (#[trigger] rows[a]).id@ == (
                        #[trigger] rows[b]).id@ implies a == b by {
                        let a0 = if a < i { a } else { a + 1 };
                        let b0 = if b < i { b } else { b + 1 };
                        assert(old_rows[a0].id@ == old_rows[b0].id@);
                    }
                    assert forall|id: Seq<char>|
                        records_of(rows@).dom().contains(id) <==> before.records.remove(
                            target,
                        ).dom().contains(id) by {
                        if records_of(rows@).dom().contains(id) {
                            let k = choose|k: int|
                                0 <= k < rows.len() && (#[trigger] rows[k]).id@ == id;
                            let k0 = if k < i { k } else { k + 1 };
                            assert(old_rows[k0].id@ == id);
                            assert(old_rows[i as int].id@ == target);
                        }
                        if before.records.dom().contains(id) && id != target {
                            let k0 = choose|k: int|
                                0 <= k < old_rows.len() && (#[trigger] old_rows[k]).id@ == id;
                            let k = if k0 < i { k0 } else { k0 - 1 };
                            assert(rows[k].id@ == id);
                        }
                    }
                    assert forall|id: Seq<char>| #[trigger]
                        records_of(rows@).dom().contains(id) implies records_of(rows@)[id]
                        == before.records.remove(target)[id] by {
                        let k = choose|k: int|
                            0 <= k < rows.len() && (#[trigger] rows[k]).id@ == id;
                        let k0 = if k < i { k } else { k + 1 };
                        lemma_row(rows@, k);
                        assert(old_rows[k0].id@ == id);
                        lemma_row(old_rows, k0);
                    }
                    assert(records_of(rows@) =~= before.records.remove(target));
                }
                *self = SqliteSessionStore { ready, rows };
            },
            None => {
                assert(before.records.remove(session_id@) =~= before.records);
            },
        }
        Ok(())
    }

    /// Whether no record is stored.
    pub fn is_empty(&self) -> (empty: bool)
        ensures
            empty == (self@.records == Map::<Seq<char>, RecordView>::empty()),
    {
        if self.rows.len() == 0 {
            assert(self@.records =~= Map::empty());
            true
        } else {
            proof {
                use_type_invariant(self);
                lemma_row(self.rows@, 0);
            }
            false
        }
    }
}

impl Sessions {
    /// Creating the table a second time changes nothing, and creating it
    /// never touches a stored record.
    pub proof fn law_setup_is_idempotent(self)
        ensures
            self.created().created() == self.created(),
            self.created().records == self.records,
            self.wf() ==> self.created().wf(),
    {
    }

    /// Every operation keeps each record under its own identifier.
    pub proof fn law_operations_keep_order(self, record: RecordView, id: Seq<char>)
        requires
            self.wf(),
        ensures
            self.save(record).0.wf(),
            self.delete(id).0.wf(),
            self.clear().0.wf(),
    {
        if self.ready {
            assert(self.delete(id).0.records.dom() =~= self.records.dom().remove(id));
        }
    }

    /// A saved record is what a load of its identifier returns, as long
    /// as it has not expired.
    pub proof fn law_saved_is_loaded(self, record: RecordView, now: i64)
        requires
            self.ready,
        ensures
            self.save(record).0.load(record.id, now) == Ok::<Option<RecordView>, AppError>(
                if record.live_at(now) {
                    Some(record)
                } else {
                    None
                },
            ),
    {
    }

    /// Of two saves under one identifier only the second shows.
    pub proof fn law_last_writer_wins(self, first: RecordView, second: RecordView)
        requires
            first.id == second.id,
        ensures
            self.save(first).0.save(second) == self.save(second),
    {
        if self.ready {
            assert(self.records.insert(first.id, first).insert(second.id, second)
                =~= self.records.insert(second.id, second));
        }
    }

    /// After a delete, or after the table was emptied, a load of the
    /// identifier returns nothing.
    pub proof fn law_deleted_is_absent(self, id: Seq<char>, now: i64)
        requires
            self.ready,
        ensures
            self.delete(id).0.load(id, now) == Ok::<Option<RecordView>, AppError>(None),
            self.clear().0.load(id, now) == Ok::<Option<RecordView>, AppError>(None),
    {
    }
}

} // verus!

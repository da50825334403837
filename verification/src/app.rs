//! The credential store: users, their registered credentials, and the
//! rules that the two tables obey.

use crate::error::{AppError, StorageFailure};
use crate::storage::{
    credential_inserted, credential_touched, looked_again, material_selected, user_inserted,
    UserInsert,
};
use crate::webauthn::{
    fresh_user_id, parsed_passkey, passkey_from_json, passkey_record, passkey_to_json,
    passkey_update, result_cred_id, result_id, updated_passkey,
};
use vstd::prelude::*;
use webauthn_rs::prelude::AuthenticationResult;

verus! {

/// A registered public-key credential.
///
/// `id` is the credential ID that the authenticator chose; `material` is the
/// serialized credential record, which the store keeps and hands back
/// without looking inside.
#[derive(Debug, PartialEq, Eq)]
pub struct Credential {
    pub id: Vec<u8>,
    pub material: String,
}

/// The mathematical value of a [`Credential`].
pub ghost struct CredentialView {
    pub id: Seq<u8>,
    pub material: Seq<char>,
}

impl View for Credential {
    type V = CredentialView;

    open spec fn view(&self) -> CredentialView {
        CredentialView { id: self.id@, material: self.material@ }
    }
}

impl Clone for Credential {
    fn clone(&self) -> (copy: Self)
        ensures
            copy@ == self@,
    {
        Credential { id: self.id.clone(), material: self.material.clone() }
    }
}

/// A credential together with the display name its owner gave it.
#[derive(Debug, PartialEq, Eq)]
pub struct CredentialWithName {
    pub name: String,
    pub credential: Credential,
}

/// The mathematical value of a [`CredentialWithName`].
pub ghost struct NamedCredential {
    pub name: Seq<char>,
    pub credential: CredentialView,
}

impl View for CredentialWithName {
    type V = NamedCredential;

    open spec fn view(&self) -> NamedCredential {
        NamedCredential { name: self.name@, credential: self.credential@ }
    }
}

impl Clone for CredentialWithName {
    fn clone(&self) -> (copy: Self)
        ensures
            copy@ == self@,
    {
        CredentialWithName { name: self.name.clone(), credential: self.credential.clone() }
    }
}

/// The values of a list of named credentials, in order.
pub open spec fn named_credentials(list: Seq<CredentialWithName>) -> Seq<NamedCredential> {
    list.map_values(|c: CredentialWithName| c@)
}

/// A user and every credential registered to that user.
#[derive(Debug, PartialEq, Eq)]
pub struct UserWithCredentials {
    pub id: u128,
    pub username: String,
    pub credentials: Vec<CredentialWithName>,
}

/// The mathematical value of a [`UserWithCredentials`].
pub ghost struct UserView {
    pub id: u128,
    pub username: Seq<char>,
    pub credentials: Seq<NamedCredential>,
}

impl View for UserWithCredentials {
    type V = UserView;

    open spec fn view(&self) -> UserView {
        UserView {
            id: self.id,
            username: self.username@,
            credentials: named_credentials(self.credentials@),
        }
    }
}

/// One row of the `users` table.
pub ghost struct UserRow {
    pub id: u128,
    pub username: Seq<char>,
}

/// One row of the `credentials` table.
pub ghost struct CredentialRow {
    pub name: Seq<char>,
    pub user: u128,
    pub credential: CredentialView,
}

/// The two tables of the credential store, rows in the order in which they
/// were inserted. `ready` says whether the tables have been created.
pub ghost struct Tables {
    pub ready: bool,
    pub users: Seq<UserRow>,
    pub credentials: Seq<CredentialRow>,
}

/// The rows that belong to `user`.
pub open spec fn owned_by(user: u128) -> spec_fn(CredentialRow) -> bool {
    |row: CredentialRow| row.user == user
}

/// The rows whose credential ID is not `id`.
pub open spec fn other_than(id: Seq<u8>) -> spec_fn(CredentialRow) -> bool {
    |row: CredentialRow| row.credential.id != id
}

/// What a row shows of itself in a listing.
pub open spec fn listed() -> spec_fn(CredentialRow) -> NamedCredential {
    |row: CredentialRow| NamedCredential { name: row.name, credential: row.credential }
}

/// A row after a credential update: the serialized record is replaced
/// where the row holds the credential `id`.
pub open spec fn refreshed(id: Seq<u8>, material: Seq<char>) -> spec_fn(CredentialRow) -> CredentialRow {
    |row: CredentialRow|
        if row.credential.id == id {
            CredentialRow { credential: CredentialView { id, material }, ..row }
        } else {
            row
        }
}

/// Whether the ceremony library can read the serialized record of each
/// of these credentials.
pub open spec fn all_readable(credentials: Seq<NamedCredential>) -> bool {
    forall|k: int|
        0 <= k < credentials.len() ==> parsed_passkey(
            (#[trigger] credentials[k]).credential.material,
        ) is Some
}

/// What a lookup hands on of the user it found: the user, where every
/// record of the user's credentials can be read back, and
/// `SerializationError` otherwise. A record that cannot be read is never
/// left out of a listing in silence.
pub open spec fn read_back(found: Option<UserView>) -> Result<Option<UserView>, AppError> {
    match found {
        Some(user) => if all_readable(user.credentials) {
            Ok(Some(user))
        } else {
            Err(AppError::SerializationError)
        },
        None => Ok(None),
    }
}

impl Tables {
    /// A store in which no table exists yet.
    pub open spec fn blank() -> Tables {
        Tables { ready: false, users: Seq::empty(), credentials: Seq::empty() }
    }

    /// The schema's constraints: nothing is stored before the tables exist,
    /// no user has the id zero, usernames and user ids are unique, every
    /// credential belongs to a stored user, and no user has two
    /// credentials of one name.
    pub open spec fn wf(self) -> bool {
        &&& !self.ready ==> self.users.len() == 0 && self.credentials.len() == 0
        &&& forall|i: int| 0 <= i < self.users.len() ==> (#[trigger] self.users[i]).id != 0
        &&& forall|i: int, j: int|
            0 <= i < self.users.len() && 0 <= j < self.users.len()
                && #[trigger] self.users[i].username == #[trigger] self.users[j].username ==> i
                == j
        &&& forall|i: int, j: int|
            0 <= i < self.users.len() && 0 <= j < self.users.len() && #[trigger] self.users[i].id
                == #[trigger] self.users[j].id ==> i == j
        &&& forall|k: int|
            0 <= k < self.credentials.len() ==> self.id_taken(
                (#[trigger] self.credentials[k]).user,
            )
        &&& forall|k: int, l: int|
            0 <= k < self.credentials.len() && 0 <= l < self.credentials.len()
                && (#[trigger] self.credentials[k]).user == (#[trigger] self.credentials[l]).user
                && self.credentials[k].name == self.credentials[l].name ==> k == l
    }

    /// Whether a user of this name is stored.
    pub open spec fn has_user(self, username: Seq<char>) -> bool {
        exists|i: int| 0 <= i < self.users.len() && (#[trigger] self.users[i]).username == username
    }

    /// Whether some user already has this id.
    pub open spec fn id_taken(self, id: u128) -> bool {
        exists|i: int| 0 <= i < self.users.len() && (#[trigger] self.users[i]).id == id
    }

    /// The id of the user of this name. Meaningful where `has_user` holds.
    pub open spec fn user_id(self, username: Seq<char>) -> u128 {
        let i = choose|i: int|
            0 <= i < self.users.len() && (#[trigger] self.users[i]).username == username;
        self.users[i].id
    }

    /// The credentials of the user with this id, oldest first.
    pub open spec fn credentials_of(self, user: u128) -> Seq<NamedCredential> {
        self.credentials.filter(owned_by(user)).map_values(listed())
    }

    /// What a lookup by name returns: the user with all credentials, or
    /// nothing where no such user is stored.
    pub open spec fn lookup(self, username: Seq<char>) -> Option<UserView> {
        if self.has_user(username) {
            let id = self.user_id(username);
            Some(UserView { id, username, credentials: self.credentials_of(id) })
        } else {
            None
        }
    }

    /// What a client-facing listing shows for this name: the user's
    /// credentials, and nothing for a name that is not stored.
    pub open spec fn listing(self, username: Seq<char>) -> Seq<NamedCredential> {
        if self.has_user(username) {
            self.credentials_of(self.user_id(username))
        } else {
            Seq::empty()
        }
    }

    /// Whether the user of this name has a credential called `name`.
    pub open spec fn has_named(self, username: Seq<char>, name: Seq<char>) -> bool {
        exists|k: int|
            0 <= k < self.credentials.len() && (#[trigger] self.credentials[k]).user
                == self.user_id(username) && self.credentials[k].name == name
    }

    /// Whether some row holds a credential with this ID.
    pub open spec fn has_credential(self, id: Seq<u8>) -> bool {
        exists|k: int|
            0 <= k < self.credentials.len() && (#[trigger] self.credentials[k]).credential.id == id
    }

    /// The serialized record of the oldest credential with this ID.
    /// Meaningful where `has_credential` holds.
    pub open spec fn material_of(self, id: Seq<u8>) -> Seq<char> {
        let k = choose|k: int|
            0 <= k < self.credentials.len() && (#[trigger] self.credentials[k]).credential.id == id
                && forall|l: int| 0 <= l < k ==> (#[trigger] self.credentials[l]).credential.id != id;
        self.credentials[k].credential.material
    }

    /// The tables once they have been created: rows stay as they are.
    pub open spec fn created(self) -> Tables {
        Tables { ready: true, ..self }
    }

    /// The tables after a user row has been appended.
    pub open spec fn with_user(self, id: u128, username: Seq<char>) -> Tables {
        Tables { users: self.users.push(UserRow { id, username }), ..self }
    }

    /// The tables after a credential row for `username` has been appended.
    pub open spec fn with_credential(
        self,
        username: Seq<char>,
        name: Seq<char>,
        credential: CredentialView,
    ) -> Tables {
        Tables {
            credentials: self.credentials.push(
                CredentialRow { name, user: self.user_id(username), credential },
            ),
            ..self
        }
    }

    /// The tables after every credential with this ID has been removed.
    pub open spec fn without_credential(self, id: Seq<u8>) -> Tables {
        Tables { credentials: self.credentials.filter(other_than(id)), ..self }
    }

    /// The tables after every credential with this ID has had its
    /// serialized record replaced.
    pub open spec fn with_material(self, id: Seq<u8>, material: Seq<char>) -> Tables {
        Tables {
            credentials: self.credentials.map_values(refreshed(id, material)),
            ..self
        }
    }

    /// What the insert of a user row does in the database: a name or an
    /// id that is already stored breaks a constraint, and so does the id
    /// zero, which stands for no user.
    pub open spec fn insert_user(self, id: u128, username: Seq<char>) -> (
        Tables,
        Result<usize, StorageFailure>,
    ) {
        if !self.ready {
            (self, Err(StorageFailure::Other))
        } else if self.has_user(username) || self.id_taken(id) || id == 0 {
            (self, Err(StorageFailure::ConstraintViolation))
        } else {
            (self.with_user(id, username), Ok(1usize))
        }
    }

    /// What the insert of a credential row does in the database. The
    /// row takes its user from the `users` table by name, so that no row
    /// is inserted, and none is refused, where the name selects no user;
    /// a second credential of one name breaks a constraint.
    pub open spec fn insert_credential(
        self,
        username: Seq<char>,
        name: Seq<char>,
        credential: CredentialView,
    ) -> (Tables, Result<usize, StorageFailure>) {
        if !self.ready {
            (self, Err(StorageFailure::Other))
        } else if !self.has_user(username) {
            (self, Ok(0usize))
        } else if self.has_named(username, name) {
            (self, Err(StorageFailure::ConstraintViolation))
        } else {
            (self.with_credential(username, name, credential), Ok(1usize))
        }
    }

    /// What the delete by credential ID does in the database: every row
    /// with the ID leaves, and the rows that left are counted.
    pub open spec fn delete_rows(self, id: Seq<u8>) -> (Tables, Result<usize, StorageFailure>) {
        if !self.ready {
            (self, Err(StorageFailure::Other))
        } else {
            let next = self.without_credential(id);
            (next, Ok((self.credentials.len() - next.credentials.len()) as usize))
        }
    }

    /// What the select of a credential's serialized record returns from
    /// the database: the record of the oldest row with the ID.
    pub open spec fn select_material(self, id: Seq<u8>) -> Result<Seq<char>, StorageFailure> {
        if !self.ready {
            Err(StorageFailure::Other)
        } else if !self.has_credential(id) {
            Err(StorageFailure::NoRows)
        } else {
            Ok(self.material_of(id))
        }
    }

    /// What the update of a serialized record does in the database: every
    /// row with the ID gets the new record.
    pub open spec fn update_rows(self, id: Seq<u8>, material: Seq<char>) -> Tables {
        if !self.ready {
            self
        } else {
            self.with_material(id, material)
        }
    }

    /// What looking a user up by name returns, without creating anyone:
    /// the stored user with all credentials, nothing where no such user
    /// is stored, and `SerializationError` where the user has a credential
    /// whose record cannot be read back.
    pub open spec fn find_user(self, username: Seq<char>) -> Result<Option<UserView>, AppError> {
        if !self.ready {
            Err(AppError::StorageError)
        } else {
            read_back(self.lookup(username))
        }
    }

    /// What asking for the user of this name does: the stored user is
    /// returned and nothing changes, and a stored user with a record that
    /// cannot be read back is a `SerializationError`; where none is
    /// stored, a row with the candidate id is appended and returned with
    /// no credentials. The candidate must be new and not zero.
    pub open spec fn get_or_create_user(self, username: Seq<char>, candidate: u128) -> (
        Tables,
        Result<UserView, AppError>,
    ) {
        if !self.ready {
            (self, Err(AppError::StorageError))
        } else if self.has_user(username) {
            match read_back(self.lookup(username)) {
                Ok(user) => (self, Ok(user->0)),
                Err(e) => (self, Err(e)),
            }
        } else if self.id_taken(candidate) || candidate == 0 {
            (self, Err(AppError::BadInput))
        } else {
            (
                self.with_user(candidate, username),
                Ok(UserView { id: candidate, username, credentials: Seq::empty() }),
            )
        }
    }

    /// What registering a credential does: it is appended for the user of
    /// this name, unless the user is missing or already has a credential
    /// of that name; then nothing changes.
    pub open spec fn add_credential(
        self,
        username: Seq<char>,
        name: Seq<char>,
        credential: CredentialView,
    ) -> (Tables, Result<(), AppError>) {
        if !self.ready {
            (self, Err(AppError::StorageError))
        } else if !self.has_user(username) {
            (self, Err(AppError::UserNotFound))
        } else if self.has_named(username, name) {
            (self, Err(AppError::DuplicateCredential))
        } else {
            (self.with_credential(username, name, credential), Ok(()))
        }
    }

    /// What revoking a credential does: every row with this ID leaves,
    /// and where there is none nothing changes.
    pub open spec fn delete_credential(self, id: Seq<u8>) -> (Tables, Result<(), AppError>) {
        if !self.ready {
            (self, Err(AppError::StorageError))
        } else if !self.has_credential(id) {
            (self, Err(AppError::CredentialNotFound))
        } else {
            (self.without_credential(id), Ok(()))
        }
    }

    /// What reading the serialized record of a credential returns.
    pub open spec fn credential_material(self, id: Seq<u8>) -> Result<Seq<char>, AppError> {
        if !self.ready {
            Err(AppError::StorageError)
        } else if !self.has_credential(id) {
            Err(AppError::CredentialNotFound)
        } else {
            Ok(self.material_of(id))
        }
    }

    /// What bringing a credential up to date does, given what the
    /// ceremony library made of its stored record: a new record is
    /// written back, a failure is passed on and nothing changes. The row
    /// is looked for again at the time of writing.
    pub open spec fn update_credential(self, id: Seq<u8>, update: Result<Seq<char>, AppError>) -> (
        Tables,
        Result<(), AppError>,
    ) {
        if !self.ready {
            (self, Err(AppError::StorageError))
        } else if !self.has_credential(id) {
            (self, Err(AppError::CredentialNotFound))
        } else {
            match update {
                Ok(material) => (self.with_material(id, material), Ok(())),
                Err(e) => (self, Err(e)),
            }
        }
    }

    /// What persisting an authentication does: the credential it was made
    /// with is looked up by its ID, its record is brought up to date by
    /// the ceremony library, and the new record is written back.
    /// Without a stored credential of that ID the library is not asked.
    pub open spec fn updated_by(self, result: AuthenticationResult) -> (
        Tables,
        Result<(), AppError>,
    ) {
        let id = result_cred_id(result);
        self.update_credential(
            id,
            match self.credential_material(id) {
                Ok(material) => brought_up_to_date(material, result),
                Err(e) => Err(e),
            },
        )
    }
}

/// The value of what a lookup returned.
pub open spec fn user_outcome(r: Result<UserWithCredentials, AppError>) -> Result<
    UserView,
    AppError,
> {
    match r {
        Ok(user) => Ok(user@),
        Err(e) => Err(e),
    }
}

/// The value of a user that may not be stored, or of the failure to look.
pub open spec fn lookup_outcome(r: Result<Option<UserWithCredentials>, AppError>) -> Result<
    Option<UserView>,
    AppError,
> {
    match r {
        Ok(Some(user)) => Ok(Some(user@)),
        Ok(None) => Ok(None),
        Err(e) => Err(e),
    }
}

/// The value of a serialized record that was computed or not.
pub open spec fn text_outcome(r: Result<String, AppError>) -> Result<Seq<char>, AppError> {
    match r {
        Ok(text) => Ok(text@),
        Err(e) => Err(e),
    }
}

impl Tables {
    /// The user in row `i` is the one that a lookup of its name finds.
    pub proof fn lemma_user_at(self, i: int)
        requires
            self.wf(),
            0 <= i < self.users.len(),
        ensures
            self.has_user(self.users[i].username),
            self.user_id(self.users[i].username) == self.users[i].id,
            self.id_taken(self.users[i].id),
    {
        let username = self.users[i].username;
        let k = choose|k: int|
            0 <= k < self.users.len() && (#[trigger] self.users[k]).username == username;
        assert(self.users[k].username == self.users[i].username);
    }

    /// Appending a user whose name and id are both new keeps the
    /// constraints.
    pub proof fn lemma_with_user(self, id: u128, username: Seq<char>)
        requires
            self.wf(),
            self.ready,
            !self.has_user(username),
            !self.id_taken(id),
            id != 0,
        ensures
            self.with_user(id, username).wf(),
    {
        let next = self.with_user(id, username);
        assert forall|k: int| 0 <= k < next.credentials.len() implies next.id_taken(
            (#[trigger] next.credentials[k]).user,
        ) by {
            let i = choose|i: int|
                0 <= i < self.users.len() && (#[trigger] self.users[i]).id
                    == self.credentials[k].user;
            assert(next.users[i].id == next.credentials[k].user);
        }
    }

    /// Appending a credential under a name that its user does not have
    /// yet keeps the constraints.
    pub proof fn lemma_with_credential(
        self,
        username: Seq<char>,
        name: Seq<char>,
        credential: CredentialView,
    )
        requires
            self.wf(),
            self.ready,
            self.has_user(username),
            !self.has_named(username, name),
        ensures
            self.with_credential(username, name, credential).wf(),
    {
        let next = self.with_credential(username, name, credential);
        let i = choose|i: int|
            0 <= i < self.users.len() && (#[trigger] self.users[i]).username == username;
        self.lemma_user_at(i);
        assert forall|k: int| 0 <= k < next.credentials.len() implies next.id_taken(
            (#[trigger] next.credentials[k]).user,
        ) by {
            if k < self.credentials.len() {
                let j = choose|j: int|
                    0 <= j < self.users.len() && (#[trigger] self.users[j]).id
                        == self.credentials[k].user;
                assert(next.users[j].id == next.credentials[k].user);
            } else {
                assert(next.users[i].id == next.credentials[k].user);
            }
        }
    }

    /// Of the first `n` rows, those that stay when the credential `id` is
    /// removed are rows of the table, and no two of them share a user and
    /// a name.
    proof fn lemma_kept_rows(self, id: Seq<u8>, n: int)
        requires
            self.wf(),
            0 <= n <= self.credentials.len(),
        ensures
            ({
                let kept = self.credentials.take(n).filter(other_than(id));
                &&& forall|a: int|
                    0 <= a < kept.len() ==> exists|j: int|
                        0 <= j < n && #[trigger] kept[a] == #[trigger] self.credentials[j]
                &&& forall|a: int, b: int|
                    0 <= a < kept.len() && 0 <= b < kept.len() && (#[trigger] kept[a]).user == (
                    #[trigger] kept[b]).user && kept[a].name == kept[b].name ==> a == b
            }),
        decreases n,
    {
        reveal(Seq::filter);
        if n > 0 {
            self.lemma_kept_rows(id, n - 1);
            let shorter = self.credentials.take(n - 1);
            let row = self.credentials[n - 1];
            assert(self.credentials.take(n) =~= shorter.push(row));
            shorter.lemma_filter_push(row, other_than(id));
            let before = shorter.filter(other_than(id));
            let kept = self.credentials.take(n).filter(other_than(id));
            assert forall|a: int| 0 <= a < kept.len() implies exists|j: int|
                0 <= j < n && #[trigger] kept[a] == #[trigger] self.credentials[j] by {
                if a < before.len() {
                    let j = choose|j: int|
                        0 <= j < n - 1 && #[trigger] before[a] == #[trigger] self.credentials[j];
                    assert(kept[a] == self.credentials[j]);
                } else {
                    assert(kept[a] == self.credentials[n - 1]);
                }
            }
            assert forall|a: int, b: int|
                0 <= a < kept.len() && 0 <= b < kept.len() && (#[trigger] kept[a]).user == (
                #[trigger] kept[b]).user && kept[a].name == kept[b].name implies a == b by {
                if a < before.len() && b >= before.len() {
                    let j = choose|j: int|
                        0 <= j < n - 1 && #[trigger] before[a] == #[trigger] self.credentials[j];
                    assert(self.credentials[j].user == self.credentials[n - 1].user);
                } else if b < before.len() && a >= before.len() {
                    let j = choose|j: int|
                        0 <= j < n - 1 && #[trigger] before[b] == #[trigger] self.credentials[j];
                    assert(self.credentials[j].user == self.credentials[n - 1].user);
                }
            }
        }
    }

    /// Removing a credential keeps the constraints.
    pub proof fn lemma_without_credential(self, id: Seq<u8>)
        requires
            self.wf(),
        ensures
            self.without_credential(id).wf(),
    {
        let n = self.credentials.len() as int;
        assert(self.credentials.take(n) =~= self.credentials);
        self.lemma_kept_rows(id, n);
        let next = self.without_credential(id);
        let kept = self.credentials.take(n).filter(other_than(id));
        assert(kept == next.credentials);
        assert forall|k: int| 0 <= k < next.credentials.len() implies next.id_taken(
            (#[trigger] next.credentials[k]).user,
        ) by {
            let j = choose|j: int|
                0 <= j < n && #[trigger] kept[k] == #[trigger] self.credentials[j];
            let i = choose|i: int|
                0 <= i < self.users.len() && (#[trigger] self.users[i]).id
                    == self.credentials[j].user;
            assert(next.users[i].id == next.credentials[k].user);
        }
        if !self.ready {
            assert(next.credentials.len() == 0) by {
                reveal(Seq::filter);
            }
        }
    }

    /// Replacing a serialized record keeps the constraints.
    pub proof fn lemma_with_material(self, id: Seq<u8>, material: Seq<char>)
        requires
            self.wf(),
        ensures
            self.with_material(id, material).wf(),
    {
        let next = self.with_material(id, material);
        assert forall|k: int| 0 <= k < next.credentials.len() implies next.id_taken(
            (#[trigger] next.credentials[k]).user,
        ) by {
            let i = choose|i: int|
                0 <= i < self.users.len() && (#[trigger] self.users[i]).id
                    == self.credentials[k].user;
            assert(next.users[i].id == next.credentials[k].user);
        }
        assert forall|k: int, l: int|
            0 <= k < next.credentials.len() && 0 <= l < next.credentials.len() && (
            #[trigger] next.credentials[k]).user == (#[trigger] next.credentials[l]).user
                && next.credentials[k].name == next.credentials[l].name implies k == l by {
            assert(self.credentials[k].user == self.credentials[l].user);
        }
    }

    /// A user who has just been created has no credentials.
    proof fn lemma_new_user_has_none(self, id: u128, n: int)
        requires
            self.wf(),
            !self.id_taken(id),
            0 <= n <= self.credentials.len(),
        ensures
            self.credentials.take(n).filter(owned_by(id)) == Seq::<CredentialRow>::empty(),
        decreases n,
    {
        reveal(Seq::filter);
        if n > 0 {
            self.lemma_new_user_has_none(id, n - 1);
            let shorter = self.credentials.take(n - 1);
            let row = self.credentials[n - 1];
            assert(self.credentials.take(n) =~= shorter.push(row));
            shorter.lemma_filter_push(row, owned_by(id));
            assert(self.id_taken(row.user));
        } else {
            assert(self.credentials.take(0) =~= Seq::empty());
        }
    }

    /// Where no row holds the credential, removing it removes nothing.
    proof fn lemma_nothing_to_remove(self, id: Seq<u8>, n: int)
        requires
            !self.has_credential(id),
            0 <= n <= self.credentials.len(),
        ensures
            self.credentials.take(n).filter(other_than(id)) == self.credentials.take(n),
        decreases n,
    {
        reveal(Seq::filter);
        if n > 0 {
            self.lemma_nothing_to_remove(id, n - 1);
            let shorter = self.credentials.take(n - 1);
            let row = self.credentials[n - 1];
            assert(self.credentials.take(n) =~= shorter.push(row));
            shorter.lemma_filter_push(row, other_than(id));
        } else {
            assert(self.credentials.take(0) =~= Seq::empty());
        }
    }

    /// Creating the tables a second time changes nothing, and creating
    /// them never touches a stored row.
    pub proof fn law_setup_is_idempotent(self)
        ensures
            self.created().created() == self.created(),
            self.created().users == self.users,
            self.created().credentials == self.credentials,
            self.wf() ==> self.created().wf(),
    {
    }

    /// Asking twice for the same name returns the same user both times,
    /// and the second call stores nothing.
    pub proof fn law_lookup_is_stable(self, username: Seq<char>, first: u128, second: u128)
        requires
            self.wf(),
        ensures
            ({
                let (once, found) = self.get_or_create_user(username, first);
                let (twice, again) = once.get_or_create_user(username, second);
                found is Ok ==> again == found && twice == once
            }),
    {
        let (once, found) = self.get_or_create_user(username, first);
        if found is Ok && !self.has_user(username) {
            self.lemma_with_user(first, username);
            let last = self.users.len() as int;
            assert(once.users[last].username == username);
            once.lemma_user_at(last);
            let n = self.credentials.len() as int;
            self.lemma_new_user_has_none(first, n);
            assert(self.credentials.take(n) =~= self.credentials);
            assert(once.credentials_of(first) =~= Seq::empty());
        }
    }

    /// Registering a credential for a name that is not stored fails with
    /// `UserNotFound` and adds no row.
    pub proof fn law_unknown_user_gets_no_credential(
        self,
        username: Seq<char>,
        name: Seq<char>,
        credential: CredentialView,
    )
        requires
            self.ready,
            !self.has_user(username),
        ensures
            self.add_credential(username, name, credential) == (
                self,
                Err::<(), AppError>(AppError::UserNotFound),
            ),
    {
    }

    /// Once a credential is registered under a name, a second one under
    /// the same name for the same user fails with `DuplicateCredential`
    /// and the rows stay as they are.
    pub proof fn law_names_are_unique(
        self,
        username: Seq<char>,
        name: Seq<char>,
        first: CredentialView,
        second: CredentialView,
    )
        requires
            self.wf(),
        ensures
            ({
                let (once, added) = self.add_credential(username, name, first);
                added is Ok ==> once.add_credential(username, name, second) == (
                    once,
                    Err::<(), AppError>(AppError::DuplicateCredential),
                )
            }),
    {
        let (once, added) = self.add_credential(username, name, first);
        if added is Ok {
            let last = self.credentials.len() as int;
            assert(once.users == self.users);
            assert(once.has_user(username));
            assert(once.user_id(username) == self.user_id(username));
            assert(once.credentials[last].user == once.user_id(username)
                && once.credentials[last].name == name);
        }
    }

    /// Deleting a credential ID that is not stored fails with
    /// `CredentialNotFound`, and no row would leave the table.
    pub proof fn law_unknown_credential_deletes_nothing(self, id: Seq<u8>)
        requires
            self.ready,
            !self.has_credential(id),
        ensures
            self.delete_credential(id) == (
                self,
                Err::<(), AppError>(AppError::CredentialNotFound),
            ),
            self.without_credential(id) == self,
    {
        let n = self.credentials.len() as int;
        self.lemma_nothing_to_remove(id, n);
        assert(self.credentials.take(n) =~= self.credentials);
    }

    /// After a successful delete no row holds the credential any more.
    pub proof fn law_deleted_is_gone(self, id: Seq<u8>)
        ensures
            !self.without_credential(id).has_credential(id),
    {
        let rest = self.credentials.filter(other_than(id));
        assert forall|k: int| 0 <= k < rest.len() implies (#[trigger] rest[k]).credential.id
            != id by {
            self.credentials.lemma_filter_pred(other_than(id), k);
        }
    }

    /// A newly registered credential comes last in its owner's listing,
    /// after those that were listed before.
    pub proof fn law_added_is_listed(
        self,
        username: Seq<char>,
        name: Seq<char>,
        credential: CredentialView,
    )
        requires
            self.wf(),
        ensures
            ({
                let (next, added) = self.add_credential(username, name, credential);
                added is Ok ==> next.listing(username) == self.listing(username).push(
                    NamedCredential { name, credential },
                )
            }),
    {
        let (next, added) = self.add_credential(username, name, credential);
        if added is Ok {
            let user = self.user_id(username);
            let row = CredentialRow { name, user, credential };
            assert(next.users == self.users);
            assert(next.has_user(username));
            assert(next.user_id(username) == user);
            self.credentials.lemma_filter_push(row, owned_by(user));
            assert(next.credentials_of(user) =~= self.credentials_of(user).push(listed()(row)));
        }
    }

    /// Every operation of the store keeps the schema's constraints.
    pub proof fn law_constraints_are_kept(
        self,
        username: Seq<char>,
        candidate: u128,
        name: Seq<char>,
        credential: CredentialView,
        id: Seq<u8>,
        update: Result<Seq<char>, AppError>,
    )
        requires
            self.wf(),
        ensures
            self.created().wf(),
            self.get_or_create_user(username, candidate).0.wf(),
            self.add_credential(username, name, credential).0.wf(),
            self.delete_credential(id).0.wf(),
            self.update_credential(id, update).0.wf(),
    {
        if self.ready && !self.has_user(username) && !self.id_taken(candidate) && candidate != 0 {
            self.lemma_with_user(candidate, username);
        }
        if self.ready && self.has_user(username) && !self.has_named(username, name) {
            self.lemma_with_credential(username, name, credential);
        }
        self.lemma_without_credential(id);
        if update is Ok {
            self.lemma_with_material(id, update->Ok_0);
        }
    }

    /// A user keeps the same id for as long as the name is stored: no
    /// operation of the store removes a user or changes a user's id.
    pub proof fn law_ids_are_stable(
        self,
        known: Seq<char>,
        username: Seq<char>,
        candidate: u128,
        name: Seq<char>,
        credential: CredentialView,
        id: Seq<u8>,
        update: Result<Seq<char>, AppError>,
    )
        requires
            self.wf(),
            self.has_user(known),
        ensures
            self.get_or_create_user(username, candidate).0.lookup(known) is Some,
            self.get_or_create_user(username, candidate).0.user_id(known) == self.user_id(known),
            self.add_credential(username, name, credential).0.user_id(known) == self.user_id(
                known,
            ),
            self.delete_credential(id).0.user_id(known) == self.user_id(known),
            self.update_credential(id, update).0.user_id(known) == self.user_id(known),
    {
        let next = self.get_or_create_user(username, candidate).0;
        if next != self {
            self.lemma_with_user(candidate, username);
            let i = choose|i: int|
                0 <= i < self.users.len() && (#[trigger] self.users[i]).username == known;
            self.lemma_user_at(i);
            assert(next.users[i] == self.users[i]);
            next.lemma_user_at(i);
        }
    }

    /// No lookup returns a user with the id zero, neither one that was
    /// stored before nor one that the lookup creates.
    pub proof fn law_no_user_has_the_nil_id(self, username: Seq<char>, candidate: u128)
        requires
            self.wf(),
        ensures
            self.get_or_create_user(username, candidate).1 matches Ok(user) ==> user.id != 0,
            self.find_user(username) matches Ok(Some(user)) ==> user.id != 0,
    {
        if self.has_user(username) {
            let i = choose|i: int|
                0 <= i < self.users.len() && (#[trigger] self.users[i]).username == username;
            self.lemma_user_at(i);
        }
    }

    /// On a store without users the lookup of any name creates the user,
    /// under any candidate id but zero.
    pub proof fn law_first_user_is_created(self, username: Seq<char>, candidate: u128)
        requires
            self.ready,
            self.users.len() == 0,
            candidate != 0,
        ensures
            self.find_user(username) == Ok::<Option<UserView>, AppError>(None),
            self.get_or_create_user(username, candidate) == (
                self.with_user(candidate, username),
                Ok::<UserView, AppError>(
                    UserView { id: candidate, username, credentials: Seq::empty() },
                ),
            ),
            self.with_user(candidate, username).has_user(username),
    {
        assert(self.with_user(candidate, username).users[0].username == username);
    }
}

/// Whether two byte strings are the same.
pub fn same_bytes(a: &Vec<u8>, b: &Vec<u8>) -> (same: bool)
    ensures
        same == (a@ == b@),
{
    if a.len() != b.len() {
        return false;
    }
    let mut i: usize = 0;
    while i < a.len()
        invariant
            i <= a.len(),
            a.len() == b.len(),
            forall|j: int| 0 <= j < i ==> a@[j] == b@[j],
        decreases a.len() - i,
    {
        if a[i] != b[i] {
            return false;
        }
        i += 1;
    }
    assert(a@ =~= b@);
    true
}

struct UserEntry {
    id: u128,
    username: String,
}

impl View for UserEntry {
    type V = UserRow;

    closed spec fn view(&self) -> UserRow {
        UserRow { id: self.id, username: self.username@ }
    }
}

struct CredentialEntry {
    name: String,
    user: u128,
    credential: Credential,
}

impl View for CredentialEntry {
    type V = CredentialRow;

    closed spec fn view(&self) -> CredentialRow {
        CredentialRow { name: self.name@, user: self.user, credential: self.credential@ }
    }
}

/// The credential store.
///
/// It holds the `users` and `credentials` tables in memory and keeps the
/// schema's constraints at every step: its value is always a well-formed
/// [`Tables`]. Each operation runs the statements that the service runs
/// on its database and reads their outcome as [`crate::storage`] says, so
/// that a store on a database which answers as [`Tables`] describes
/// behaves as this one does.
pub struct App {
    ready: bool,
    users: Vec<UserEntry>,
    credentials: Vec<CredentialEntry>,
}

impl View for App {
    type V = Tables;

    closed spec fn view(&self) -> Tables {
        tables_of(self.ready, self.users@, self.credentials@)
    }
}

/// The tables that the stored rows stand for.
spec fn tables_of(ready: bool, users: Seq<UserEntry>, credentials: Seq<CredentialEntry>) -> Tables {
    Tables {
        ready,
        users: users.map_values(|u: UserEntry| u@),
        credentials: credentials.map_values(|c: CredentialEntry| c@),
    }
}

impl App {
    /// What holds of every store: its tables meet the schema's constraints.
    #[verifier::type_invariant]
    pub open spec fn consistent(self) -> bool {
        self@.wf()
    }

    /// A store whose tables have not been created yet.
    pub fn new() -> (app: App)
        ensures
            app@ == Tables::blank(),
    {
        let app = App { ready: false, users: Vec::new(), credentials: Vec::new() };
        assert(app@.users =~= Seq::empty());
        assert(app@.credentials =~= Seq::empty());
        app
    }

    /// Creates the tables where they do not exist yet. Rows that are
    /// already stored stay as they are, so a second call changes nothing.
    pub fn init(&mut self) -> (done: Result<(), AppError>)
        ensures
            done is Ok,
            final(self)@ == old(self)@.created(),
            final(self)@.wf(),
    {
        proof {
            use_type_invariant(&*self);
        }
        self.ready = true;
        Ok(())
    }

    /// Whether the tables have been created.
    pub fn is_ready(&self) -> (ready: bool)
        ensures
            ready == self@.ready,
    {
        self.ready
    }

    /// Looks the user up by name, with all credentials. Nothing is
    /// created: a name that is not stored gives `None`.
    pub fn find_user(&self, username: &String) -> (found: Result<
        Option<UserWithCredentials>,
        AppError,
    >)
        ensures
            lookup_outcome(found) == self@.find_user(username@),
    {
        match self.select_user(username) {
            Ok(stored) => readable_user(stored),
            Err(failure) => Err(AppError::from(failure)),
        }
    }

    /// Looks the user up by name and, where there is none, stores a new
    /// one under `candidate_id`.
    ///
    /// A stored user is returned with all credentials and the store does
    /// not change; where one of the user's records cannot be read back
    /// the result is `SerializationError`. A new user has no credentials.
    /// Where the candidate id is zero or already belongs to another user
    /// the row cannot be stored and `BadInput` is returned.
    pub fn get_or_create_user(&mut self, username: String, candidate_id: u128) -> (found: Result<
        UserWithCredentials,
        AppError,
    >)
        ensures
            (final(self)@, user_outcome(found)) == old(self)@.get_or_create_user(
                username@,
                candidate_id,
            ),
            found matches Ok(user) ==> user.id != 0,
    {
        proof {
            use_type_invariant(&*self);
        }
        let stored = match self.find_user(&username) {
            Ok(stored) => stored,
            Err(e) => {
                return Err(e);
            },
        };
        if let Some(user) = stored {
            proof {
                let i = choose|i: int|
                    0 <= i < self@.users.len() && (#[trigger] self@.users[i]).username
                        == username@;
                self@.lemma_user_at(i);
            }
            return Ok(user);
        }
        match user_inserted(self.insert_user(candidate_id, &username)) {
            UserInsert::Created => {
                let credentials: Vec<CredentialWithName> = Vec::new();
                assert(named_credentials(credentials@) =~= Seq::empty());
                Ok(UserWithCredentials { id: candidate_id, username, credentials })
            },
            UserInsert::LookAgain => match self.find_user(&username) {
                Ok(stored) => looked_again(stored),
                Err(e) => Err(e),
            },
            UserInsert::Failed(e) => Err(e),
        }
    }

    /// Looks the user up by name and creates the user, under a random id,
    /// where there is none: [`App::get_or_create_user`] with an id drawn
    /// here.
    pub fn get_user_with_credentials(&mut self, username: String) -> (found: Result<
        UserWithCredentials,
        AppError,
    >)
        ensures
            exists|candidate: u128|
                candidate != 0 && (final(self)@, user_outcome(found))
                    == #[trigger] old(self)@.get_or_create_user(username@, candidate),
            found matches Ok(user) ==> user.id != 0,
    {
        let candidate = fresh_user_id();
        self.get_or_create_user(username, candidate)
    }

    /// The credentials registered to `username`, oldest first. A name
    /// that is not stored has none; nothing is created.
    pub fn list_credentials(&self, username: &String) -> (list: Vec<CredentialWithName>)
        ensures
            named_credentials(list@) == self@.listing(username@),
    {
        match self.user_position(username) {
            Some(i) => self.credentials_for(self.users[i].id),
            None => Vec::new(),
        }
    }

    /// Registers `credential` for the user `username` under the display
    /// name `credential_name`.
    ///
    /// Fails with `UserNotFound` where no such user is stored and with
    /// `DuplicateCredential` where the user already has a credential of
    /// that name. A failed call leaves the store as it was.
    pub fn add_credential(
        &mut self,
        username: String,
        credential_name: String,
        credential: &Credential,
    ) -> (added: Result<(), AppError>)
        ensures
            (final(self)@, added) == old(self)@.add_credential(
                username@,
                credential_name@,
                credential@,
            ),
    {
        let rows = self.insert_credential(&username, credential_name, credential);
        credential_inserted(rows)
    }

    /// The serialized record of the credential with this ID, or
    /// `CredentialNotFound` where none is stored.
    pub fn credential_material(&self, cred_id: &Vec<u8>) -> (material: Result<String, AppError>)
        ensures
            text_outcome(material) == self@.credential_material(cred_id@),
    {
        material_selected(self.select_material(cred_id))
    }

    /// Finishes the update of the credential with this ID, given what the
    /// ceremony library made of its stored record.
    ///
    /// The credential is looked for again: where it has gone meanwhile the
    /// result is `CredentialNotFound`. A failed update is passed on and
    /// the store stays as it was; a new record replaces the stored one.
    pub fn store_update(&mut self, cred_id: &Vec<u8>, update: Result<String, AppError>) -> (done:
        Result<(), AppError>)
        ensures
            (final(self)@, done) == old(self)@.update_credential(cred_id@, text_outcome(update)),
    {
        let ghost before = self@;
        match update {
            Ok(material) => {
                let rows = self.update_rows(cred_id, material);
                proof {
                    if !before.has_credential(cred_id@) {
                        assert(before.with_material(cred_id@, material@).credentials
                            =~= before.credentials);
                    }
                }
                credential_touched(rows)
            },
            Err(e) => match self.credential_material(cred_id) {
                Ok(_) => Err(e),
                Err(missing) => Err(missing),
            },
        }
    }

    /// Persists what an authentication changed in the credential it was
    /// made with.
    ///
    /// The credential is found by the ID in `auth_result`, its record is
    /// updated by the ceremony library and written back:
    /// [`App::store_update`] on the outcome of [`refresh_material`].
    /// Without a stored credential of that ID the result is
    /// `CredentialNotFound` and the library is not asked.
    pub fn update_credential(&mut self, auth_result: AuthenticationResult) -> (done: Result<
        (),
        AppError,
    >)
        ensures
            (final(self)@, done) == old(self)@.updated_by(auth_result),
    {
        let cred_id = result_id(&auth_result);
        let material = match self.credential_material(&cred_id) {
            Ok(material) => material,
            Err(e) => {
                return Err(e);
            },
        };
        let update = refresh_material(material.as_str(), &auth_result);
        self.store_update(&cred_id, update)
    }

    /// Revokes the credential with this ID.
    ///
    /// Fails with `CredentialNotFound` where no stored credential has the
    /// ID; the store is then unchanged.
    pub fn delete_credential(&mut self, cred_id: Vec<u8>) -> (deleted: Result<(), AppError>)
        ensures
            (final(self)@, deleted) == old(self)@.delete_credential(cred_id@),
    {
        let ghost before = self@;
        let rows = self.delete_rows(&cred_id);
        proof {
            if before.ready && !before.has_credential(cred_id@) {
                before.law_unknown_credential_deletes_nothing(cred_id@);
            }
        }
        credential_touched(rows)
    }

    /// Moves the tables out and leaves a blank store behind.
    fn take(&mut self) -> (tables: App)
        ensures
            tables@ == old(self)@,
            final(self)@ == Tables::blank(),
    {
        let mut tables = App::new();
        core::mem::swap(self, &mut tables);
        tables
    }

    /// Where the user of this name stands in the `users` table.
    fn user_position(&self, username: &String) -> (found: Option<usize>)
        ensures
            found is Some <==> self@.has_user(username@),
            found matches Some(i) ==> i < self.users.len() && self.users[i as int].username@
                == username@ && self.users[i as int].id == self@.user_id(username@),
    {
        proof {
            use_type_invariant(self);
        }
        let mut i: usize = 0;
        while i < self.users.len()
            invariant
                self@.wf(),
                i <= self.users.len(),
                forall|j: int| 0 <= j < i ==> self.users[j].username@ != username@,
            decreases self.users.len() - i,
        {
            if self.users[i].username == *username {
                proof {
                    assert(self@.users[i as int] == self.users[i as int]@);
                    self@.lemma_user_at(i as int);
                }
                return Some(i);
            }
            i += 1;
        }
        assert forall|j: int| 0 <= j < self@.users.len() implies (#[trigger] self@.users[j]).username
            != username@ by {
            assert(self@.users[j] == self.users[j]@);
        }
        None
    }

    /// Whether some user already has this id.
    fn id_in_use(&self, id: u128) -> (taken: bool)
        ensures
            taken == self@.id_taken(id),
    {
        let mut i: usize = 0;
        while i < self.users.len()
            invariant
                i <= self.users.len(),
                forall|j: int| 0 <= j < i ==> self.users[j].id != id,
            decreases self.users.len() - i,
        {
            if self.users[i].id == id {
                assert(self@.users[i as int] == self.users[i as int]@);
                return true;
            }
            i += 1;
        }
        assert forall|j: int| 0 <= j < self@.users.len() implies (#[trigger] self@.users[j]).id
            != id by {
            assert(self@.users[j] == self.users[j]@);
        }
        false
    }

    /// Whether the user with this id has a credential called `name`.
    fn name_in_use(&self, user: u128, name: &String) -> (taken: bool)
        ensures
            taken == exists|k: int|
                0 <= k < self@.credentials.len() && (#[trigger] self@.credentials[k]).user == user
                    && self@.credentials[k].name == name@,
    {
        let mut k: usize = 0;
        while k < self.credentials.len()
            invariant
                k <= self.credentials.len(),
                forall|l: int|
                    0 <= l < k ==> !(self.credentials[l].user == user && self.credentials[l].name@
                        == name@),
            decreases self.credentials.len() - k,
        {
            if self.credentials[k].user == user && self.credentials[k].name == *name {
                assert(self@.credentials[k as int] == self.credentials[k as int]@);
                return true;
            }
            k += 1;
        }
        assert forall|l: int| 0 <= l < self@.credentials.len() implies !((
        #[trigger] self@.credentials[l]).user == user && self@.credentials[l].name == name@) by {
            assert(self@.credentials[l] == self.credentials[l]@);
        }
        false
    }

    /// Where the oldest credential with this ID stands in the table.
    fn credential_position(&self, cred_id: &Vec<u8>) -> (found: Option<usize>)
        ensures
            found is Some <==> self@.has_credential(cred_id@),
            found matches Some(k) ==> k < self.credentials.len()
                && self.credentials[k as int].credential.material@ == self@.material_of(cred_id@),
    {
        let mut k: usize = 0;
        while k < self.credentials.len()
            invariant
                k <= self.credentials.len(),
                forall|l: int| 0 <= l < k ==> self.credentials[l].credential.id@ != cred_id@,
            decreases self.credentials.len() - k,
        {
            if same_bytes(&self.credentials[k].credential.id, cred_id) {
                proof {
                    let t = self@;
                    assert forall|l: int| 0 <= l <= k implies (#[trigger] t.credentials[l])
                        == self.credentials[l]@ by {}
                    let c = choose|c: int|
                        0 <= c < t.credentials.len() && (#[trigger] t.credentials[c]).credential.id
                            == cred_id@ && forall|l: int|
                            0 <= l < c ==> (#[trigger] t.credentials[l]).credential.id != cred_id@;
                    assert(t.credentials[k as int].credential.id == cred_id@);
                    assert(c == k);
                }
                return Some(k);
            }
            k += 1;
        }
        assert forall|l: int| 0 <= l < self@.credentials.len() implies (
        #[trigger] self@.credentials[l]).credential.id != cred_id@ by {
            assert(self@.credentials[l] == self.credentials[l]@);
        }
        None
    }

    /// The credentials of the user with this id, oldest first.
    fn credentials_for(&self, user: u128) -> (list: Vec<CredentialWithName>)
        ensures
            named_credentials(list@) == self@.credentials_of(user),
    {
        let mut list: Vec<CredentialWithName> = Vec::new();
        let mut k: usize = 0;
        assert(self@.credentials.take(0) =~= Seq::empty());
        proof {
            reveal(Seq::filter);
        }
        assert(named_credentials(list@) =~= self@.credentials.take(0).filter(
            owned_by(user),
        ).map_values(listed()));
        while k < self.credentials.len()
            invariant
                k <= self.credentials.len(),
                self@.credentials.len() == self.credentials.len(),
                named_credentials(list@) == self@.credentials.take(k as int).filter(
                    owned_by(user),
                ).map_values(listed()),
            decreases self.credentials.len() - k,
        {
            let ghost before = self@.credentials.take(k as int);
            let ghost row = self@.credentials[k as int];
            proof {
                assert(row == self.credentials[k as int]@);
                assert(self@.credentials.take(k + 1) =~= before.push(row));
                before.lemma_filter_push(row, owned_by(user));
            }
            let entry = &self.credentials[k];
            if entry.user == user {
                let ghost old_list = list@;
                list.push(
                    CredentialWithName {
                        name: entry.name.clone(),
                        credential: entry.credential.clone(),
                    },
                );
                assert(named_credentials(list@) =~= named_credentials(old_list).push(
                    listed()(row),
                ));
                assert(before.push(row).filter(owned_by(user)).map_values(listed())
                    =~= before.filter(owned_by(user)).map_values(listed()).push(listed()(row)));
            }
            k += 1;
        }
        assert(self@.credentials.take(k as int) =~= self@.credentials);
        list
    }

    /// The select of the user of this name, joined with the user's
    /// credentials.
    fn select_user(&self, username: &String) -> (stored: Result<
        Option<UserWithCredentials>,
        StorageFailure,
    >)
        ensures
            match stored {
                Ok(Some(user)) => self@.ready && self@.lookup(username@) == Some(user@),
                Ok(None) => self@.ready && self@.lookup(username@) is None,
                Err(failure) => !self@.ready && failure == StorageFailure::Other,
            },
    {
        if !self.ready {
            return Err(StorageFailure::Other);
        }
        match self.user_position(username) {
            Some(i) => {
                let id = self.users[i].id;
                let credentials = self.credentials_for(id);
                Ok(Some(UserWithCredentials { id, username: username.clone(), credentials }))
            },
            None => Ok(None),
        }
    }

    /// The insert of a user row.
    fn insert_user(&mut self, id: u128, username: &String) -> (rows: Result<usize, StorageFailure>)
        ensures
            (final(self)@, rows) == old(self)@.insert_user(id, username@),
    {
        proof {
            use_type_invariant(&*self);
        }
        if !self.ready {
            return Err(StorageFailure::Other);
        }
        if self.user_position(username).is_some() || self.id_in_use(id) || id == 0 {
            return Err(StorageFailure::ConstraintViolation);
        }
        let ghost before = self@;
        proof {
            before.lemma_with_user(id, username@);
        }
        let entry = UserEntry { id, username: username.clone() };
        let App { ready, mut users, credentials } = self.take();
        users.push(entry);
        assert(tables_of(ready, users@, credentials@).users =~= before.users.push(entry@));
        *self = App { ready, users, credentials };
        Ok(1)
    }

    /// The insert of a credential row for the user that `username`
    /// selects.
    fn insert_credential(
        &mut self,
        username: &String,
        credential_name: String,
        credential: &Credential,
    ) -> (rows: Result<usize, StorageFailure>)
        ensures
            (final(self)@, rows) == old(self)@.insert_credential(
                username@,
                credential_name@,
                credential@,
            ),
    {
        proof {
            use_type_invariant(&*self);
        }
        if !self.ready {
            return Err(StorageFailure::Other);
        }
        let user = match self.user_position(username) {
            Some(i) => self.users[i].id,
            None => {
                return Ok(0);
            },
        };
        if self.name_in_use(user, &credential_name) {
            return Err(StorageFailure::ConstraintViolation);
        }
        let ghost before = self@;
        proof {
            before.lemma_with_credential(username@, credential_name@, credential@);
        }
        let entry = CredentialEntry { name: credential_name, user, credential: credential.clone() };
        let App { ready, users, mut credentials } = self.take();
        credentials.push(entry);
        assert(tables_of(ready, users@, credentials@).credentials =~= before.credentials.push(
            entry@,
        ));
        *self = App { ready, users, credentials };
        Ok(1)
    }

    /// The select of the serialized record of the credential with this
    /// ID.
    fn select_material(&self, cred_id: &Vec<u8>) -> (row: Result<String, StorageFailure>)
        ensures
            crate::storage::row_view(row) == self@.select_material(cred_id@),
    {
        if !self.ready {
            return Err(StorageFailure::Other);
        }
        match self.credential_position(cred_id) {
            Some(k) => Ok(self.credentials[k].credential.material.clone()),
            None => Err(StorageFailure::NoRows),
        }
    }

    /// The update of the serialized record in the credential rows with
    /// this ID.
    fn update_rows(&mut self, cred_id: &Vec<u8>, material: String) -> (rows: Result<
        usize,
        StorageFailure,
    >)
        ensures
            final(self)@ == old(self)@.update_rows(cred_id@, material@),
            rows is Err <==> !old(self)@.ready,
            rows matches Err(failure) ==> failure == StorageFailure::Other,
            rows matches Ok(n) ==> (n == 0 <==> !old(self)@.has_credential(cred_id@)),
    {
        proof {
            use_type_invariant(&*self);
        }
        if !self.ready {
            return Err(StorageFailure::Other);
        }
        let ghost before = self@;
        let mut rows: Vec<CredentialEntry> = Vec::new();
        let mut changed: usize = 0;
        let mut k: usize = 0;
        while k < self.credentials.len()
            invariant
                before == self@,
                k <= self.credentials.len(),
                rows.len() == k,
                changed <= k,
                changed > 0 <==> exists|l: int|
                    0 <= l < k && (#[trigger] before.credentials[l]).credential.id == cred_id@,
                forall|l: int|
                    0 <= l < k ==> (#[trigger] rows[l])@ == refreshed(cred_id@, material@)(
                        before.credentials[l],
                    ),
            decreases self.credentials.len() - k,
        {
            let entry = &self.credentials[k];
            assert(before.credentials[k as int] == entry@);
            let credential = if same_bytes(&entry.credential.id, cred_id) {
                changed += 1;
                Credential { id: entry.credential.id.clone(), material: material.clone() }
            } else {
                entry.credential.clone()
            };
            rows.push(CredentialEntry { name: entry.name.clone(), user: entry.user, credential });
            k += 1;
        }
        proof {
            before.lemma_with_material(cred_id@, material@);
            assert(before.credentials.len() == self.credentials.len());
            assert(rows@.map_values(|c: CredentialEntry| c@) =~= before.with_material(
                cred_id@,
                material@,
            ).credentials);
        }
        let App { ready, users, credentials: _ } = self.take();
        *self = App { ready, users, credentials: rows };
        Ok(changed)
    }

    /// The delete of the credential rows with this ID.
    fn delete_rows(&mut self, cred_id: &Vec<u8>) -> (rows: Result<usize, StorageFailure>)
        ensures
            (final(self)@, rows) == old(self)@.delete_rows(cred_id@),
            rows matches Ok(n) ==> (n == 0 <==> !old(self)@.has_credential(cred_id@)),
    {
        proof {
            use_type_invariant(&*self);
        }
        if !self.ready {
            return Err(StorageFailure::Other);
        }
        let ghost before = self@;
        let mut kept: Vec<CredentialEntry> = Vec::new();
        let mut removed: usize = 0;
        let mut k: usize = 0;
        proof {
            reveal(Seq::filter);
            assert(before.credentials.take(0) =~= Seq::empty());
            assert(kept@.map_values(|c: CredentialEntry| c@) =~= before.credentials.take(0).filter(
                other_than(cred_id@),
            ));
        }
        while k < self.credentials.len()
            invariant
                before == self@,
                k <= self.credentials.len(),
                before.credentials.len() == self.credentials.len(),
                kept@.map_values(|c: CredentialEntry| c@) == before.credentials.take(
                    k as int,
                ).filter(other_than(cred_id@)),
                removed + kept.len() == k,
                removed > 0 <==> exists|l: int|
                    0 <= l < k && (#[trigger] before.credentials[l]).credential.id == cred_id@,
            decreases self.credentials.len() - k,
        {
            let ghost seen = before.credentials.take(k as int);
            let ghost row = before.credentials[k as int];
            proof {
                assert(row == self.credentials[k as int]@);
                assert(before.credentials.take(k + 1) =~= seen.push(row));
                seen.lemma_filter_push(row, other_than(cred_id@));
            }
            let entry = &self.credentials[k];
            if same_bytes(&entry.credential.id, cred_id) {
                removed += 1;
            } else {
                let ghost old_kept = kept@;
                kept.push(
                    CredentialEntry {
                        name: entry.name.clone(),
                        user: entry.user,
                        credential: entry.credential.clone(),
                    },
                );
                assert(kept@.map_values(|c: CredentialEntry| c@) =~= old_kept.map_values(
                    |c: CredentialEntry| c@,
                ).push(row));
            }
            k += 1;
        }
        assert(before.credentials.take(k as int) =~= before.credentials);
        proof {
            before.lemma_without_credential(cred_id@);
        }
        let App { ready, users, credentials: _ } = self.take();
        *self = App { ready, users, credentials: kept };
        Ok(removed)
    }
}

/// Hands on the user that a lookup found, where every record of the
/// user's credentials can be read back; see [`read_back`].
pub fn readable_user(found: Option<UserWithCredentials>) -> (checked: Result<
    Option<UserWithCredentials>,
    AppError,
>)
    ensures
        lookup_outcome(checked) == read_back(crate::storage::user_view(found)),
        checked matches Ok(user) ==> user == found,
{
    let user = match found {
        Some(user) => user,
        None => {
            return Ok(None);
        },
    };
    let mut k: usize = 0;
    while k < user.credentials.len()
        invariant
            found == Some(user),
            k <= user.credentials.len(),
            forall|l: int|
                0 <= l < k ==> parsed_passkey(
                    (#[trigger] user@.credentials[l]).credential.material,
                ) is Some,
        decreases user.credentials.len() - k,
    {
        assert(user@.credentials[k as int] == user.credentials[k as int]@);
        if passkey_from_json(user.credentials[k].credential.material.as_str()).is_err() {
            assert(parsed_passkey(user@.credentials[k as int].credential.material) is None);
            return Err(AppError::SerializationError);
        }
        k += 1;
    }
    Ok(Some(user))
}

/// What the ceremony library makes of a serialized credential record
/// and an authentication: the record of the passkey after the library's
/// own update.
///
/// The three failures are: the stored record cannot be read back
/// (`SerializationError`), the authentication was made with another
/// credential (`MismatchingCredential`), the updated record cannot be
/// written (`UnknownError`).
pub open spec fn brought_up_to_date(material: Seq<char>, result: AuthenticationResult) -> Result<
    Seq<char>,
    AppError,
> {
    match parsed_passkey(material) {
        None => Err(AppError::SerializationError),
        Some(passkey) => match updated_passkey(passkey, result) {
            None => Err(AppError::MismatchingCredential),
            Some(updated) => match passkey_record(updated) {
                Some(written) => Ok(written),
                None => Err(AppError::UnknownError),
            },
        },
    }
}

/// Brings a serialized credential record up to date with an
/// authentication, by the ceremony library's own update.
pub fn refresh_material(material: &str, auth_result: &AuthenticationResult) -> (update: Result<
    String,
    AppError,
>)
    ensures
        text_outcome(update) == brought_up_to_date(material@, *auth_result),
{
    let mut passkey = match passkey_from_json(material) {
        Ok(passkey) => passkey,
        Err(_) => {
            return Err(AppError::SerializationError);
        },
    };
    if passkey_update(&mut passkey, auth_result).is_none() {
        return Err(AppError::MismatchingCredential);
    }
    match passkey_to_json(&passkey) {
        Ok(material) => Ok(material),
        Err(_) => Err(AppError::UnknownError),
    }
}

} // verus!

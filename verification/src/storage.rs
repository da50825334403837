//! What the credential store makes of the database's answers: which
//! error a failed statement stands for, and what the number of rows that
//! a statement touched says about the request.

use crate::app::{
    all_readable, listed, named_credentials, owned_by, Credential, CredentialRow,
    CredentialView, CredentialWithName, NamedCredential, Tables, UserView, UserWithCredentials,
};
use crate::error::{AppError, StorageFailure};
use crate::webauthn::{parsed_passkey, passkey_cred_id, passkey_from_json, passkey_id};
use vstd::prelude::*;
use vstd::std_specs::convert::FromSpec;

verus! {

/// The error of `rusqlite`. Opaque here.
#[verifier::external_type_specification]
#[verifier::external_body]
pub struct ExDatabaseError(rusqlite::Error);

/// Which of the three failures an error of `rusqlite` is: a failure of
/// SQLite with the code `ConstraintViolation` is a broken constraint,
/// `QueryReturnedNoRows` is a query without rows, and every other error
/// is of the third kind.
pub uninterp spec fn classified(error: rusqlite::Error) -> StorageFailure;

/// Tells the variants of `rusqlite::Error` apart, as [`classified`]
/// says.
#[verifier::external_body]
fn classify(error: &rusqlite::Error) -> (failure: StorageFailure)
    ensures
        failure == classified(*error),
{
    match error {
        rusqlite::Error::SqliteFailure(cause, _) => match cause.code {
            libsqlite3_sys::ErrorCode::ConstraintViolation => StorageFailure::ConstraintViolation,
            _ => StorageFailure::Other,
        },
        rusqlite::Error::QueryReturnedNoRows => StorageFailure::NoRows,
        _ => StorageFailure::Other,
    }
}

/// Puts the outcome of a statement into the service's own terms: what a
/// statement returned stays, and an error of the database becomes one of
/// the three failures.
pub fn database_outcome<T>(outcome: Result<T, rusqlite::Error>) -> (plain: Result<
    T,
    StorageFailure,
>)
    ensures
        plain == match outcome {
            Ok(value) => Ok::<T, StorageFailure>(value),
            Err(error) => Err(classified(error)),
        },
{
    match outcome {
        Ok(value) => Ok(value),
        Err(error) => Err(classify(&error)),
    }
}

/// What the insert of a credential row stands for. The row is inserted
/// for the user that the name selects: no row means that there is no
/// such user, and a broken constraint that the user has a credential of
/// that name.
pub open spec fn inserted(rows: Result<usize, StorageFailure>) -> Result<(), AppError> {
    match rows {
        Ok(n) => if n == 0 {
            Err(AppError::UserNotFound)
        } else {
            Ok(())
        },
        Err(StorageFailure::ConstraintViolation) => Err(AppError::DuplicateCredential),
        Err(failure) => Err(AppError::from_spec(failure)),
    }
}

/// Reads the outcome of the insert of a credential row.
pub fn credential_inserted(rows: Result<usize, StorageFailure>) -> (added: Result<(), AppError>)
    ensures
        added == inserted(rows),
{
    match rows {
        Ok(n) => if n == 0 {
            Err(AppError::UserNotFound)
        } else {
            Ok(())
        },
        Err(StorageFailure::ConstraintViolation) => Err(AppError::DuplicateCredential),
        Err(failure) => Err(AppError::from(failure)),
    }
}

/// What a delete or an update by credential ID stands for: no row means
/// that no credential with the ID is stored.
pub open spec fn touched(rows: Result<usize, StorageFailure>) -> Result<(), AppError> {
    match rows {
        Ok(n) => if n == 0 {
            Err(AppError::CredentialNotFound)
        } else {
            Ok(())
        },
        Err(failure) => Err(AppError::from_spec(failure)),
    }
}

/// Reads the outcome of a delete or an update by credential ID.
pub fn credential_touched(rows: Result<usize, StorageFailure>) -> (done: Result<(), AppError>)
    ensures
        done == touched(rows),
{
    match rows {
        Ok(n) => if n == 0 {
            Err(AppError::CredentialNotFound)
        } else {
            Ok(())
        },
        Err(failure) => Err(AppError::from(failure)),
    }
}

/// What the select of a credential's record stands for: no row means
/// that no credential with the ID is stored.
pub open spec fn selected(row: Result<Seq<char>, StorageFailure>) -> Result<Seq<char>, AppError> {
    match row {
        Ok(material) => Ok(material),
        Err(StorageFailure::NoRows) => Err(AppError::CredentialNotFound),
        Err(failure) => Err(AppError::from_spec(failure)),
    }
}

/// The value of a record that was selected or not.
pub open spec fn row_view(row: Result<String, StorageFailure>) -> Result<
    Seq<char>,
    StorageFailure,
> {
    match row {
        Ok(material) => Ok(material@),
        Err(failure) => Err(failure),
    }
}

/// Reads the outcome of the select of a credential's record.
pub fn material_selected(row: Result<String, StorageFailure>) -> (material: Result<
    String,
    AppError,
>)
    ensures
        crate::app::text_outcome(material) == selected(row_view(row)),
{
    match row {
        Ok(material) => Ok(material),
        Err(StorageFailure::NoRows) => Err(AppError::CredentialNotFound),
        Err(failure) => Err(AppError::from(failure)),
    }
}

/// What is to be done after the insert of a user row.
#[derive(Debug, Copy, Clone, PartialEq, Eq, Structural)]
pub enum UserInsert {
    /// The row is stored: the user is new and has no credentials.
    Created,
    /// A constraint stood in the way. Someone else may have stored the
    /// user meanwhile: look the name up once more.
    LookAgain,
    /// The database failed; this is the error to report.
    Failed(AppError),
}

/// What the insert of a user row stands for.
pub open spec fn user_insert(rows: Result<usize, StorageFailure>) -> UserInsert {
    match rows {
        Ok(_) => UserInsert::Created,
        Err(StorageFailure::ConstraintViolation) => UserInsert::LookAgain,
        Err(failure) => UserInsert::Failed(AppError::from_spec(failure)),
    }
}

/// Reads the outcome of the insert of a user row. A broken constraint is
/// no failure yet: the user may have been stored by someone else between
/// the lookup and the insert.
pub fn user_inserted(rows: Result<usize, StorageFailure>) -> (next: UserInsert)
    ensures
        next == user_insert(rows),
{
    match rows {
        Ok(_) => UserInsert::Created,
        Err(StorageFailure::ConstraintViolation) => UserInsert::LookAgain,
        Err(failure) => UserInsert::Failed(AppError::from(failure)),
    }
}

/// Ends a lookup that followed a broken constraint: the user that is
/// found now is the answer, and without one the insert had failed for
/// good, with `BadInput`.
pub fn looked_again(found: Option<UserWithCredentials>) -> (answer: Result<
    UserWithCredentials,
    AppError,
>)
    ensures
        match found {
            Some(user) => answer == Ok::<UserWithCredentials, AppError>(user),
            None => answer == Err::<UserWithCredentials, AppError>(AppError::BadInput),
        },
{
    match found {
        Some(user) => Ok(user),
        None => Err(AppError::BadInput),
    }
}

/// One row of the join of a user with the user's credentials: the user's
/// id and name and, where the user has a credential, its name and its
/// serialized record. A user without credentials gives one row without
/// either.
#[derive(Debug, PartialEq, Eq)]
pub struct JoinedRow {
    pub id: u128,
    pub username: String,
    pub name: Option<String>,
    pub value: Option<String>,
}

/// The mathematical value of a [`JoinedRow`].
pub ghost struct JoinedRowView {
    pub id: u128,
    pub username: Seq<char>,
    pub name: Option<Seq<char>>,
    pub value: Option<Seq<char>>,
}

impl View for JoinedRow {
    type V = JoinedRowView;

    open spec fn view(&self) -> JoinedRowView {
        JoinedRowView {
            id: self.id,
            username: self.username@,
            name: match self.name {
                Some(name) => Some(name@),
                None => None,
            },
            value: match self.value {
                Some(value) => Some(value@),
                None => None,
            },
        }
    }
}

/// The values of some joined rows, in order.
pub open spec fn joined(rows: Seq<JoinedRow>) -> Seq<JoinedRowView> {
    rows.map_values(|row: JoinedRow| row@)
}

/// The credential that a serialized record stands for: the record
/// itself, under the credential ID that the ceremony library finds in
/// it. Nothing where the library cannot read the record.
pub open spec fn decoded(material: Seq<char>) -> Option<CredentialView> {
    match parsed_passkey(material) {
        Some(passkey) => Some(CredentialView { id: passkey_cred_id(passkey), material }),
        None => None,
    }
}

/// Whether a joined row holds a record that cannot be read back.
pub open spec fn unreadable(row: JoinedRowView) -> bool {
    row.name is Some && row.value is Some && decoded(row.value->0) is None
}

/// The credential that a joined row holds: one that has both its name
/// and its record.
pub open spec fn row_credential(row: JoinedRowView) -> Seq<NamedCredential> {
    match (row.name, row.value) {
        (Some(name), Some(value)) => match decoded(value) {
            Some(credential) => seq![NamedCredential { name, credential }],
            None => Seq::empty(),
        },
        _ => Seq::empty(),
    }
}

/// The credentials that some joined rows hold, in the order of the rows.
pub open spec fn row_credentials(rows: Seq<JoinedRowView>) -> Seq<NamedCredential>
    decreases rows.len(),
{
    if rows.len() == 0 {
        Seq::empty()
    } else {
        row_credentials(rows.drop_last()) + row_credential(rows.last())
    }
}

/// The user that the joined rows of one username describe: id and name
/// are those of the last row, the credentials those of all rows. No row
/// describes no user, and neither does the id zero, which no user has.
/// Where a row holds a record that cannot be read back, the rows
/// describe nothing but a `SerializationError`.
pub open spec fn described(rows: Seq<JoinedRowView>) -> Result<Option<UserView>, AppError> {
    if exists|k: int| 0 <= k < rows.len() && unreadable(#[trigger] rows[k]) {
        Err(AppError::SerializationError)
    } else if rows.len() == 0 || rows.last().id == 0 {
        Ok(None)
    } else {
        Ok(
            Some(
                UserView {
                    id: rows.last().id,
                    username: rows.last().username,
                    credentials: row_credentials(rows),
                },
            ),
        )
    }
}

/// The value of a user that may be absent.
pub open spec fn user_view(user: Option<UserWithCredentials>) -> Option<UserView> {
    match user {
        Some(user) => Some(user@),
        None => None,
    }
}

/// Puts the rows that the database returned for one username together
/// into the user they describe, see [`described`]. A record that cannot
/// be read back fails the whole with `SerializationError`.
pub fn user_from_rows(rows: Vec<JoinedRow>) -> (user: Result<Option<UserWithCredentials>, AppError>)
    ensures
        crate::app::lookup_outcome(user) == described(joined(rows@)),
{
    let mut id: u128 = 0;
    let mut username = String::new();
    let mut credentials: Vec<CredentialWithName> = Vec::new();
    let ghost all = joined(rows@);
    let mut k: usize = 0;
    assert(all.take(0) =~= Seq::empty());
    assert(named_credentials(credentials@) =~= row_credentials(all.take(0)));
    while k < rows.len()
        invariant
            all == joined(rows@),
            k <= rows.len(),
            named_credentials(credentials@) == row_credentials(all.take(k as int)),
            forall|l: int| 0 <= l < k ==> !unreadable(#[trigger] all[l]),
            k == 0 ==> id == 0,
            k > 0 ==> id == all[k - 1].id && username@ == all[k - 1].username,
        decreases rows.len() - k,
    {
        let row = &rows[k];
        proof {
            assert(all[k as int] == row@);
            assert(all.take(k + 1).drop_last() =~= all.take(k as int));
            assert(all.take(k + 1).last() == all[k as int]);
        }
        id = row.id;
        username = row.username.clone();
        let ghost before = credentials@;
        match (&row.name, &row.value) {
            (Some(name), Some(value)) => {
                match credential_from_material(value.clone()) {
                    Some(credential) => {
                        credentials.push(CredentialWithName { name: name.clone(), credential });
                    },
                    None => {
                        assert(unreadable(all[k as int]));
                        return Err(AppError::SerializationError);
                    },
                }
                assert(named_credentials(credentials@) =~= named_credentials(before)
                    + row_credential(row@));
            },
            _ => {
                assert(named_credentials(credentials@) =~= named_credentials(before)
                    + row_credential(row@));
            },
        }
        k += 1;
    }
    assert(all.take(k as int) =~= all);
    if id == 0 {
        Ok(None)
    } else {
        Ok(Some(UserWithCredentials { id, username, credentials }))
    }
}

/// Reads a stored record back into a credential, see [`decoded`].
pub fn credential_from_material(material: String) -> (credential: Option<Credential>)
    ensures
        crate::ceremony::credential_view(credential) == decoded(material@),
{
    match passkey_from_json(material.as_str()) {
        Ok(passkey) => Some(Credential { id: passkey_id(&passkey), material }),
        Err(_) => None,
    }
}

/// The joined row of a user with one of the user's credentials.
pub open spec fn joined_with(id: u128, username: Seq<char>) -> spec_fn(CredentialRow) -> JoinedRowView {
    |row: CredentialRow|
        JoinedRowView {
            id,
            username,
            name: Some(row.name),
            value: Some(row.credential.material),
        }
}

/// The rows that the join of the two tables returns for a username: one
/// for each credential of the user, a single row without a credential
/// for a user who has none, and no row where no such user is stored.
pub open spec fn join(t: Tables, username: Seq<char>) -> Seq<JoinedRowView> {
    if !t.has_user(username) {
        Seq::empty()
    } else {
        let id = t.user_id(username);
        let own = t.credentials.filter(owned_by(id));
        if own.len() == 0 {
            seq![JoinedRowView { id, username, name: None, value: None }]
        } else {
            own.map_values(joined_with(id, username))
        }
    }
}

/// Whether every credential row is stored under the ID that the
/// ceremony library finds in its record, where it can read the record.
pub open spec fn records_agree(t: Tables) -> bool {
    forall|k: int|
        0 <= k < t.credentials.len() ==> (decoded(
            (#[trigger] t.credentials[k]).credential.material,
        ) matches Some(credential) ==> credential.id == t.credentials[k].credential.id)
}

/// The credentials that the joined rows of some credential rows hold are
/// those credentials as a listing shows them, where every record can be
/// read back and holds the ID it is stored under.
proof fn lemma_joined_credentials(rows: Seq<CredentialRow>, id: u128, username: Seq<char>)
    requires
        forall|k: int|
            0 <= k < rows.len() ==> decoded((#[trigger] rows[k]).credential.material) == Some(
                rows[k].credential,
            ),
    ensures
        row_credentials(rows.map_values(joined_with(id, username))) == rows.map_values(listed()),
    decreases rows.len(),
{
    let joined = rows.map_values(joined_with(id, username));
    if rows.len() > 0 {
        lemma_joined_credentials(rows.drop_last(), id, username);
        assert(joined.drop_last() =~= rows.drop_last().map_values(joined_with(id, username)));
        assert(decoded(rows.last().credential.material) == Some(rows.last().credential));
        assert(row_credentials(joined) =~= rows.map_values(listed()));
    } else {
        assert(row_credentials(joined) =~= rows.map_values(listed()));
    }
}

/// Putting the rows of the join together gives what a lookup of the
/// user gives, where the rows are stored under the IDs that their
/// records hold: the same user, or the same `SerializationError`.
pub proof fn law_join_describes_the_user(t: Tables, username: Seq<char>)
    requires
        t.wf(),
        t.ready,
        records_agree(t),
    ensures
        described(join(t, username)) == t.find_user(username),
{
    if t.has_user(username) {
        let id = t.user_id(username);
        let i = choose|i: int|
            0 <= i < t.users.len() && (#[trigger] t.users[i]).username == username;
        t.lemma_user_at(i);
        let own = t.credentials.filter(owned_by(id));
        let rows = join(t, username);
        let listing = own.map_values(listed());
        assert forall|k: int| 0 <= k < own.len() implies t.credentials.contains(
            #[trigger] own[k],
        ) by {
            t.credentials.lemma_filter_contains_rev(owned_by(id), own[k]);
        }
        if own.len() == 0 {
            assert(rows.drop_last() =~= Seq::empty());
            assert(row_credentials(rows.drop_last()) =~= Seq::empty());
            assert(row_credentials(rows) =~= listing);
            assert(!unreadable(rows[0]));
        } else if all_readable(listing) {
            assert forall|k: int| 0 <= k < own.len() implies decoded(
                (#[trigger] own[k]).credential.material,
            ) == Some(own[k].credential) by {
                assert(parsed_passkey(listing[k].credential.material) is Some);
                let j = choose|j: int| 0 <= j < t.credentials.len() && t.credentials[j] == own[k];
                assert(decoded(t.credentials[j].credential.material) is Some);
            }
            lemma_joined_credentials(own, id, username);
            assert forall|k: int| 0 <= k < rows.len() implies !unreadable(#[trigger] rows[k]) by {
                assert(decoded(own[k].credential.material) is Some);
            }
        } else {
            let k = choose|k: int|
                0 <= k < listing.len() && parsed_passkey(
                    (#[trigger] listing[k]).credential.material,
                ) is None;
            assert(unreadable(rows[k]));
        }
    }
}

} // verus!

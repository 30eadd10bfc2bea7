use crate::account::{
    fresh_user, has_user_id, has_username, lower_of, user_with_name, username_index,
    with_connected_at, DbUser, DbUserView, UserStore,
};
use crate::error::Error;
use crate::hash::{phc_parses, phc_verifies, sha3_of, Hasher};
use crate::session::SessionStore;
use crate::utils::{create_salt, create_uuid_v4, get_current_timestamp};
use vstd::prelude::*;

verus! {

/// Credentials presented by a caller: a username and the plaintext master
/// password. The plaintext is never persisted or logged.
pub struct UserIn {
    pub username: String,
    pub password: String,
}

/// Public account fields handed back to an authenticated caller. The account
/// salt is included so that the client can re-derive the secret-sealing key
/// locally; it is not itself secret.
pub struct UserOut {
    pub user_id: u128,
    pub username: String,
    pub salt: [u8; 32],
}

impl UserOut {
    pub fn from_dbuser(dbuser: DbUser) -> (r: Self)
        ensures
            r.user_id == dbuser.user_id,
            r.username@ == dbuser.username@,
            r.salt@ == dbuser.salt@,
    {
        UserOut { user_id: dbuser.user_id, username: dbuser.username, salt: dbuser.salt }
    }
}

impl From<DbUser> for UserOut {
    fn from(dbuser: DbUser) -> (r: Self) {
        UserOut { user_id: dbuser.user_id, username: dbuser.username, salt: dbuser.salt }
    }
}

impl vstd::std_specs::convert::FromSpecImpl<DbUser> for UserOut {
    open spec fn obeys_from_spec() -> bool {
        true
    }

    open spec fn from_spec(dbuser: DbUser) -> Self {
        UserOut { user_id: dbuser.user_id, username: dbuser.username, salt: dbuser.salt }
    }
}

/// What a successful login hands back: the public account fields and the raw
/// bearer token, which exists outside the caller's memory only at this
/// moment.
pub struct LoginResponse {
    pub user: UserOut,
    pub session_id: String,
}

/// Registration: hash the password, draw a fresh account identifier and
/// salt, and insert the record, normalizing the username and checking
/// uniqueness atomically with the insertion.
///
/// `Error::Conflict` is reported exactly when the normalized username is
/// already taken and hashing succeeded; the table is unchanged on every
/// error. On success exactly one record is appended: its username is the
/// normalized input, its stored hash verifies the given password, and its
/// creation and connection timestamps agree.
pub fn register_user<H: Hasher>(db: &mut UserStore, hasher: &H, user: &UserIn) -> (r: Result<
    (),
    Error,
>)
    requires
        old(db).wf(),
    ensures
        final(db).wf(),
        r is Err ==> final(db)@ == old(db)@,
        r is Err ==> r == Err::<(), Error>(Error::Conflict) || r == Err::<(), Error>(Error::Hashing)
            || r == Err::<(), Error>(Error::Store),
        r == Err::<(), Error>(Error::Conflict) ==> has_username(old(db)@, lower_of(user.username@)),
        r == Err::<(), Error>(Error::Store) ==> !has_username(old(db)@, lower_of(user.username@)),
        has_username(old(db)@, lower_of(user.username@)) ==> r == Err::<(), Error>(Error::Conflict)
            || r == Err::<(), Error>(Error::Hashing),
        r is Ok ==> !has_username(old(db)@, lower_of(user.username@)),
        r is Ok ==> exists|id: u128, h: Seq<char>, s: Seq<u8>, t: i64|
            phc_parses(h) && phc_verifies(user.password@, h) && s.len() == 32 && final(db)@
                == old(db)@.push(#[trigger] fresh_user(id, lower_of(user.username@), h, s, t)),
{
    let hashed_password = match hasher.hash_data(&user.password) {
        Ok(h) => h,
        Err(_) => {
            return Err(Error::Hashing);
        },
    };
    let user_id = create_uuid_v4();
    let salt = create_salt();
    let timestamp = get_current_timestamp();
    let ghost db0 = db@;
    let created = db.create_user(
        user_id,
        &user.username,
        &hashed_password,
        &salt,
        timestamp,
        timestamp,
    );
    match created {
        Ok(()) => {
            proof {
                assert(db@ == db0.push(
                    fresh_user(
                        user_id,
                        lower_of(user.username@),
                        hashed_password@,
                        salt@,
                        timestamp,
                    ),
                ));
            }
            Ok(())
        },
        Err(e) => Err(e),
    }
}

/// Login: fetch the record under the normalized username and verify the
/// password against its stored hash. Whether the user is unknown or the
/// password wrong, the same undifferentiated `Error::AuthenticationFailure`
/// is returned and nothing changes, so callers cannot enumerate usernames.
///
/// On success a fresh session token is issued for the account (only its
/// digest is stored), the connection timestamp is updated, and the public
/// account fields are returned together with the raw token.
pub fn login_user<H: Hasher>(
    db: &mut UserStore,
    sessions: &mut SessionStore,
    hasher: &H,
    user: &UserIn,
) -> (r: Result<LoginResponse, Error>)
    requires
        old(db).wf(),
        old(sessions).wf(),
    ensures
        final(db).wf(),
        final(sessions).wf(),
        r is Ok <==> has_username(old(db)@, lower_of(user.username@)) && phc_parses(
            user_with_name(old(db)@, lower_of(user.username@)).password,
        ) && phc_verifies(
            user.password@,
            user_with_name(old(db)@, lower_of(user.username@)).password,
        ),
        r matches Ok(l) ==> l.user.user_id == user_with_name(
            old(db)@,
            lower_of(user.username@),
        ).user_id && l.user.username@ == user_with_name(old(db)@, lower_of(user.username@)).username
            && l.user.salt@ == user_with_name(old(db)@, lower_of(user.username@)).salt
            && l.session_id@.len() == 43 && final(sessions)@ == old(sessions)@.insert(
            sha3_of(l.session_id@),
            user_with_name(old(db)@, lower_of(user.username@)).user_id,
        ),
        r is Ok ==> exists|t: i64|
            final(db)@ == old(db)@.update(
                username_index(old(db)@, lower_of(user.username@)),
                #[trigger] with_connected_at(
                    user_with_name(old(db)@, lower_of(user.username@)),
                    t,
                ),
            ),
        r is Err ==> r == Err::<LoginResponse, Error>(Error::AuthenticationFailure) && final(db)@
            == old(db)@ && final(sessions)@ == old(sessions)@,
{
    let dbuser = match db.get_user(&user.username) {
        Some(u) => u,
        None => {
            return Err(Error::AuthenticationFailure);
        },
    };
    let verified = match hasher.cmp_data(&user.password, &dbuser.password) {
        Ok(b) => b,
        Err(_) => false,
    };
    if !verified {
        return Err(Error::AuthenticationFailure);
    }
    let session_id = sessions.issue(dbuser.user_id);
    let connected_at = get_current_timestamp();
    let ghost pre_db = db@;
    proof {
        let j = username_index(pre_db, lower_of(user.username@));
        assert(0 <= j < pre_db.len() && pre_db[j].username == lower_of(user.username@));
        assert(pre_db[j].user_id == dbuser.user_id);
        assert(has_user_id(pre_db, dbuser.user_id));
    }
    db.update_user_timestamp(dbuser.user_id, connected_at);
    proof {
        let j = username_index(pre_db, lower_of(user.username@));
        let i = choose|i: int|
            0 <= i < pre_db.len() && pre_db[i].user_id == dbuser.user_id && db@ == pre_db.update(
                i,
                (DbUserView { connected_at, ..pre_db[i] }),
            );
        if i < j {
            assert(pre_db[i].user_id != pre_db[j].user_id);
        }
        if j < i {
            assert(pre_db[j].user_id != pre_db[i].user_id);
        }
        assert(db@ == pre_db.update(
            j,
            with_connected_at(user_with_name(pre_db, lower_of(user.username@)), connected_at),
        ));
    }
    Ok(LoginResponse { user: UserOut::from_dbuser(dbuser), session_id })
}

/// Logout: revoke the presented session token. Idempotent, like revocation
/// itself.
pub fn logout_user(sessions: &mut SessionStore, session_id: &String)
    requires
        old(sessions).wf(),
    ensures
        final(sessions).wf(),
        final(sessions)@ == old(sessions)@.remove(sha3_of(session_id@)),
{
    sessions.revoke(session_id);
}

} // verus!

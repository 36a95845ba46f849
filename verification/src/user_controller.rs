//! Request forms and the user-facing operations: registration, deletion,
//! profile update, lookup, paginated listing, and password login.

use vstd::prelude::*;
use vstd::string::StrSliceExecFns;
use vstd::string::StringExecFns;

use crate::base::ApiResponse;
use crate::oid::hex_value;
use crate::oid::is_oid_str;
use crate::oid::RecordId;
use crate::token::get_token_for_user;
use crate::token::signing_secret;
use crate::token::token_of;
use crate::user_doc::first_with_username;
use crate::user_doc::has_id;
use crate::user_doc::index_of_id;
use crate::user_doc::lemma_first_username_mem;
use crate::user_doc::page_slice;
use crate::user_doc::redact;
use crate::user_doc::PageResponse;
use crate::user_doc::UserDocument;
use crate::user_doc::UserStore;
use crate::user_doc::UserView;

verus! {

/// Registration form: email, username, password.
pub struct RegisterForm {
    pub email: String,
    pub username: String,
    pub password: String,
}

/// A partial profile patch; absent fields are left unchanged.
pub struct UserInfo {
    pub username: Option<String>,
    pub password: Option<String>,
    pub email: Option<String>,
    pub admin: Option<bool>,
    pub token: Option<String>,
}

/// A pagination request: 1-based page number and a positive page size.
pub struct PageQuery {
    pub page: u64,
    pub page_size: u64,
}

/// Login form: username and password, never persisted.
pub struct PasswordLoginForm {
    pub username: String,
    pub password: String,
}

/// The patch names a username of fewer than five characters.
pub open spec fn username_too_short(info: UserInfo) -> bool {
    info.username matches Some(u) && u@.len() < 5
}

/// The patch names a password of fewer than five characters.
pub open spec fn password_too_short(info: UserInfo) -> bool {
    info.password matches Some(p) && p@.len() < 5
}

/// The patch names an email of fewer than five characters.
pub open spec fn email_too_short(info: UserInfo) -> bool {
    info.email matches Some(e) && e@.len() < 5
}

/// Every field the patch names meets its length rule.
pub open spec fn patch_valid(info: UserInfo) -> bool {
    !username_too_short(info) && !password_too_short(info) && !email_too_short(info)
}

/// Checks the patch's field-length rules, in order: username, then
/// password, then email, each at least five characters where present.
/// Returns the validation error to send back, or nothing when the patch is
/// acceptable. No store access happens here or before this runs.
pub fn validate_user_info(info: &UserInfo) -> (r: Option<ApiResponse<String>>)
    ensures
        username_too_short(*info) ==> (r matches Some(e) && e.code == 5003 && e.msg@
            == "username must be at least 5 characters"@),
        !username_too_short(*info) && password_too_short(*info) ==> (r matches Some(e) && e.code
            == 5003 && e.msg@ == "password must be at least 5 characters"@),
        !username_too_short(*info) && !password_too_short(*info) && email_too_short(*info) ==> (
        r matches Some(e) && e.code == 5003 && e.msg@
            == "email must be at least 5 characters"@),
        patch_valid(*info) ==> r is None,
{
    match &info.username {
        Some(u) => {
            if u.as_str().unicode_len() < 5 {
                return Some(ApiResponse::error(5003, "username must be at least 5 characters"));
            }
        },
        None => {},
    }
    match &info.password {
        Some(p) => {
            if p.as_str().unicode_len() < 5 {
                return Some(ApiResponse::error(5003, "password must be at least 5 characters"));
            }
        },
        None => {},
    }
    match &info.email {
        Some(e) => {
            if e.as_str().unicode_len() < 5 {
                return Some(ApiResponse::error(5003, "email must be at least 5 characters"));
            }
        },
        None => {},
    }
    None
}

/// Registers a new user: inserts a record built from the form, with
/// `admin` false and an empty token, and answers with the new id; a store
/// failure answers code 5001.
pub fn create_user(store: &mut UserStore, payload: RegisterForm) -> (r: Result<
    ApiResponse<RecordId>,
    ApiResponse<String>,
>)
    requires
        old(store).wf(),
    ensures
        final(store).wf(),
        old(store).at_capacity() ==> (r matches Err(e) && e.code == 5001 && final(store)@ == old(
            store,
        )@),
        !old(store).at_capacity() ==> (r matches Ok(env) && env.code == 0 && !has_id(
            old(store)@,
            env.data@,
        ) && final(store)@ =~= old(store)@.push(
            UserView {
                id: env.data@,
                username: payload.username@,
                password: payload.password@,
                email: payload.email@,
                admin: false,
                token: Seq::empty(),
            },
        )),
{
    match UserDocument::add_one(store, payload) {
        Some(id) => Ok(ApiResponse::success(id)),
        None => Err(ApiResponse::error(5001, "could not register user")),
    }
}

/// Deletes the user the path names. A malformed id answers code 5004
/// without touching the store; a missing record answers code 5002; on
/// success the deleted record is returned as stored.
pub fn delete_user(store: &mut UserStore, payload: &str) -> (r: Result<
    ApiResponse<UserDocument>,
    ApiResponse<String>,
>)
    requires
        old(store).wf(),
    ensures
        final(store).wf(),
        !is_oid_str(payload@) ==> (r matches Err(e) && e.code == 5004 && final(store)@ == old(
            store,
        )@),
        is_oid_str(payload@) && !has_id(old(store)@, hex_value(payload@)) ==> (r matches Err(e)
            && e.code == 5002 && final(store)@ == old(store)@),
        is_oid_str(payload@) && has_id(old(store)@, hex_value(payload@)) ==> (r matches Ok(env)
            && env.code == 0 && env.data@ == old(store)@[index_of_id(
            old(store)@,
            hex_value(payload@),
        )] && final(store)@ =~= old(store)@.remove(index_of_id(old(store)@, hex_value(payload@)))),
{
    match RecordId::parse_str(payload) {
        None => Err(ApiResponse::error(5004, "user id malformed")),
        Some(id) => match UserDocument::delete_one(store, id) {
            Some(user) => Ok(ApiResponse::success(user)),
            None => Err(ApiResponse::error(5002, "could not delete user")),
        },
    }
}

/// Updates a user's profile. The id is parsed first (code 5004 when
/// malformed), then the patch is validated (code 5003) before any store
/// read, then the current record is loaded (code 5004 when absent). Only
/// the email field of the patch is merged onto the loaded record, which the
/// lookup hands over redacted, and the merge is persisted as a full
/// replace; a persist failure answers code 5002.
pub fn update_user(store: &mut UserStore, payload: &str, body: &UserInfo) -> (r: Result<
    ApiResponse<UserDocument>,
    ApiResponse<String>,
>)
    requires
        old(store).wf(),
    ensures
        final(store).wf(),
        !is_oid_str(payload@) ==> (r matches Err(e) && e.code == 5004 && final(store)@ == old(
            store,
        )@),
        is_oid_str(payload@) && !patch_valid(*body) ==> (r matches Err(e) && e.code == 5003
            && final(store)@ == old(store)@),
        is_oid_str(payload@) && patch_valid(*body) && !has_id(old(store)@, hex_value(payload@))
            ==> (r matches Err(e) && e.code == 5004 && final(store)@ == old(store)@),
        is_oid_str(payload@) && patch_valid(*body) && has_id(old(store)@, hex_value(payload@))
            ==> (r matches Ok(env) && env.code == 0 && ({
            let idx = index_of_id(old(store)@, hex_value(payload@));
            let cur = old(store)@[idx];
            let merged = UserView {
                password: Seq::empty(),
                token: Seq::empty(),
                email: (match body.email {
                    Some(e) => e@,
                    None => cur.email,
                }),
                ..cur
            };
            env.data@ == merged && final(store)@ =~= old(store)@.update(idx, merged)
        })),
{
    match RecordId::parse_str(payload) {
        None => Err(ApiResponse::error(5004, "user id malformed")),
        Some(id) => {
            match validate_user_info(body) {
                Some(e) => Err(e),
                None => {
                    match UserDocument::find_by_id(store, id) {
                        None => Err(ApiResponse::error(5004, "user id malformed")),
                        Some(user) => {
                            let mut user = user;
                            match &body.email {
                                Some(e) => {
                                    user.email = e.clone();
                                },
                                None => {},
                            }
                            match UserDocument::update_one(store, &user) {
                                Some(updated) => Ok(ApiResponse::success(updated)),
                                None => Err(ApiResponse::error(5002, "could not update user")),
                            }
                        },
                    }
                },
            }
        },
    }
}

/// Lists one page of users: the total count of all records, and the page's
/// slice in ascending username order, each record redacted.
pub fn find_user_list(store: &UserStore, payload: PageQuery) -> (r: Result<
    ApiResponse<PageResponse<UserDocument>>,
    ApiResponse<String>,
>)
    requires
        store.wf(),
        payload.page >= 1,
        payload.page_size >= 1,
    ensures
        r matches Ok(env) && env.code == 0 && env.data.total == store@.len()
            && env.data.data.deep_view() =~= page_slice(store@, payload.page, payload.page_size),
{
    match UserDocument::find_many(store, payload) {
        Some(page) => Ok(ApiResponse::success(page)),
        None => Err(ApiResponse::error(5003, "could not list users")),
    }
}

/// Looks up one user by the id in the path: a malformed id answers code
/// 5004, a missing record code 5002, and a found record is answered
/// redacted.
pub fn find_user(store: &UserStore, payload: &str) -> (r: Result<
    ApiResponse<UserDocument>,
    ApiResponse<String>,
>)
    requires
        store.wf(),
    ensures
        !is_oid_str(payload@) ==> (r matches Err(e) && e.code == 5004),
        is_oid_str(payload@) && !has_id(store@, hex_value(payload@)) ==> (r matches Err(e)
            && e.code == 5002),
        is_oid_str(payload@) && has_id(store@, hex_value(payload@)) ==> (r matches Ok(env)
            && env.code == 0 && env.data@ == redact(
            store@[index_of_id(store@, hex_value(payload@))],
        )),
{
    match RecordId::parse_str(payload) {
        None => Err(ApiResponse::error(5004, "user id malformed")),
        Some(id) => match UserDocument::find_by_id(store, id) {
            Some(user) => Ok(ApiResponse::success(user)),
            None => Err(ApiResponse::error(5002, "could not find user")),
        },
    }
}

/// Logs a user in by password. An unknown username or a password mismatch
/// answers code 5002 and leaves the store unchanged. On a match, a token
/// is signed for the submitted pair, persisted onto the record, and
/// answered with the record (password blanked) and the `set-cookie` value
/// `token=<token>`.
pub fn do_login_by_password(store: &mut UserStore, payload: PasswordLoginForm) -> (r: Result<
    (ApiResponse<UserDocument>, String),
    ApiResponse<String>,
>)
    requires
        old(store).wf(),
    ensures
        final(store).wf(),
        first_with_username(old(store)@, payload.username@) is None ==> (r matches Err(e)
            && e.code == 5002 && final(store)@ == old(store)@),
        (first_with_username(old(store)@, payload.username@) matches Some(u) && u.password
            != payload.password@) ==> (r matches Err(e) && e.code == 5002 && final(store)@ == old(
            store,
        )@),
        (first_with_username(old(store)@, payload.username@) matches Some(u) && u.password
            == payload.password@) ==> (r matches Ok(pair) && ({
            let u = first_with_username(old(store)@, payload.username@)->Some_0;
            let tok = token_of(signing_secret(), payload.username@, payload.password@);
            &&& pair.0.code == 0
            &&& pair.0.data@ == UserView { password: Seq::empty(), token: tok, ..u }
            &&& pair.0.data@.token.len() > 0
            &&& pair.1@ == "token="@ + tok
            &&& final(store)@ =~= old(store)@.update(
                index_of_id(old(store)@, u.id),
                UserView { token: tok, ..u },
            )
        })),
{
    let found = UserDocument::find_by_username(store, payload.username.clone());
    match found {
        None => Err(ApiResponse::error(5002, "user does not exist")),
        Some(user) => {
            let mut user = user;
            if user.password.eq(&payload.password) {
                proof {
                    lemma_first_username_mem(store@, payload.username@);
                    let k = choose|k: int|
                        0 <= k < store@.len() && store@[k] == first_with_username(
                            store@,
                            payload.username@,
                        )->Some_0;
                    assert(store@[k].id == user@.id);
                }
                let token = get_token_for_user(&payload);
                user.token = token.clone();
                match UserDocument::update_one(store, &user) {
                    Some(_) => {
                        user.password = String::new();
                        let cookie = String::from_str("token=").concat(token.as_str());
                        Ok((ApiResponse::success(user), cookie))
                    },
                    None => Err(ApiResponse::error(5002, "login failed, try again later")),
                }
            } else {
                Err(ApiResponse::error(5002, "wrong username or password"))
            }
        },
    }
}

} // verus!

//! A verified model of a small user-account backend: registration, login with
//! token issuance, profile update, lookup, pagination, and the validation and
//! redaction rules around them.
//!
//! The document store is modelled as an in-memory collection of user records
//! ([`user_doc::UserStore`]); every repository and controller operation is
//! specified and proved against that model. Token signing and verification go
//! through a JWT library and are the only trusted calls.

mod base;
mod oid;
mod order;
mod todo_controller;
mod token;
mod user_controller;
mod user_doc;

pub use oid::RecordId;
pub use todo_controller::Todo;
pub use todo_controller::todo_list;
pub use token::extract_claim;
pub use token::get_token_for_user;
pub use token::get_user_by_token;
pub use token::lemma_token_round_trip;
pub use user_controller::create_user;
pub use user_controller::delete_user;
pub use user_controller::do_login_by_password;
pub use user_controller::find_user;
pub use user_controller::find_user_list;
pub use user_controller::update_user;
pub use user_controller::validate_user_info;
pub use user_controller::PageQuery;
pub use user_controller::PasswordLoginForm;
pub use user_controller::RegisterForm;
pub use user_controller::UserInfo;
pub use user_doc::PageResponse;
pub use user_doc::UserDocument;
pub use user_doc::UserStore;

pub use base::ApiHeader;
pub use base::ApiResponse;
pub use base::AppConfig;

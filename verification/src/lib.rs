//! An authenticating proxy core for a database wire protocol: a per-username
//! rate limiter with lockout windows, credential and allowed-address checks
//! against a trust store, an authenticator composing the two, and the state
//! machine of one proxied session that relays queries and results in order
//! once, and only once, the authentication gate has been passed.

mod config;
mod security;
mod session;
mod spirit;
mod store;

pub use session::ClientMessage;
pub use session::Credentials;
pub use session::Phase;
pub use session::ResultEvent;
pub use session::Session;
pub use session::SessionAction;
pub use session::SessionEvent;
pub use session::denial_response;
pub use session::denial_text;
pub use session::failure_response;
pub use session::failure_text;
pub use session::lemma_client_close_releases_upstream;
pub use session::lemma_relay_preserves_order;
pub use session::lemma_translated_pointwise;
pub use session::relay_events;
pub use session::spec_translate;
pub use session::spec_translated;
pub use session::step_post;
pub use session::translate_event;
pub use session::violation_post;

pub use config::Config;
pub use config::UserPermission;
pub use security::AttemptEntry;
pub use security::Security;
pub use security::after_failures;
pub use security::attempts_of;
pub use security::bcrypt_accepts;
pub use security::distinct_usernames;
pub use security::elapsed_since;
pub use security::lemma_attempt_isolation;
pub use security::lemma_failures_accumulate;
pub use security::lemma_lockout_window;
pub use security::saturating_inc;
pub use security::spec_after_check;
pub use security::spec_is_locked;
pub use security::spec_record_failure;
pub use spirit::Decision;
pub use spirit::DenyReason;
pub use spirit::Spirit;
pub use spirit::spec_credentials_ok;
pub use spirit::spec_decide;
pub use spirit::spec_map_after_decide;
pub use store::CredentialRecord;
pub use store::StoreError;
pub use store::TrustStore;
pub use store::store_lookup;

use vstd::prelude::*;

verus! {

/// Deployment configuration, loaded once at startup by an external loader:
/// the allow-listed source addresses and the per-user opt-in flags.
pub struct Config {
    pub allowed_ips: Vec<String>,
    pub user_permissions: Vec<UserPermission>,
}

/// One per-user, per-schema opt-in flag.
pub struct UserPermission {
    pub username: String,
    pub schema: String,
    pub is_opt_in: bool,
}

} // verus!

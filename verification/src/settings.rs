use vstd::prelude::*;
use crate::text::owned;

verus! {

/// The settings the Function App reads from its environment.
pub struct AppVariables {
    pub st_name: String,
    pub q_name: String,
    pub sub_id: String,
    pub rg_name: String,
    pub kv_name: String,
    pub cr_server: String,
    pub cr_name: String,
    pub fn_name: String,
    pub msi_name: String,
    pub msi_client_id: String,
}

impl AppVariables {
    /// Settings before the environment is read: all empty but the queue, which is `nextflow`.
    pub fn new() -> (r: AppVariables)
        ensures
            r.st_name@ == Seq::<char>::empty(),
            r.q_name@ == "nextflow"@,
            r.sub_id@ == Seq::<char>::empty(),
            r.rg_name@ == Seq::<char>::empty(),
            r.kv_name@ == Seq::<char>::empty(),
            r.cr_server@ == Seq::<char>::empty(),
            r.cr_name@ == Seq::<char>::empty(),
            r.fn_name@ == Seq::<char>::empty(),
            r.msi_name@ == Seq::<char>::empty(),
            r.msi_client_id@ == Seq::<char>::empty(),
    {
        AppVariables {
            st_name: String::new(),
            q_name: owned("nextflow"),
            sub_id: String::new(),
            rg_name: String::new(),
            kv_name: String::new(),
            cr_server: String::new(),
            cr_name: String::new(),
            fn_name: String::new(),
            msi_name: String::new(),
            msi_client_id: String::new(),
        }
    }
}

/// The secrets the Function App reads from Key Vault.
pub struct AppSecrets {
    pub st_name: String,
    pub cr_server: String,
    pub cr_username: String,
    pub cr_password: String,
}

impl AppSecrets {
    /// Secrets before Key Vault is read: all empty.
    pub fn new() -> (r: AppSecrets)
        ensures
            r.st_name@ == Seq::<char>::empty(),
            r.cr_server@ == Seq::<char>::empty(),
            r.cr_username@ == Seq::<char>::empty(),
            r.cr_password@ == Seq::<char>::empty(),
    {
        AppSecrets {
            st_name: String::new(),
            cr_server: String::new(),
            cr_username: String::new(),
            cr_password: String::new(),
        }
    }
}

} // verus!

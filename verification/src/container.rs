use vstd::prelude::*;
use crate::command::opt_view;
use crate::settings::{AppSecrets, AppVariables};
use crate::text::{owned, str_eq, views};

verus! {

/// The provisioning states Azure reports for a container group, and `WhatIf` for a dry run.
#[derive(Clone, Copy, Debug, PartialEq, Eq, Structural)]
pub enum ProvisioningState {
    Succeeded,
    Failed,
    Canceled,
    InProgress,
    Deleting,
    WhatIf,
}

/// The name of a provisioning state, as Azure writes it.
pub open spec fn state_name(p: ProvisioningState) -> Seq<char> {
    match p {
        ProvisioningState::Succeeded => "Succeeded"@,
        ProvisioningState::Failed => "Failed"@,
        ProvisioningState::Canceled => "Canceled"@,
        ProvisioningState::InProgress => "InProgress"@,
        ProvisioningState::Deleting => "Deleting"@,
        ProvisioningState::WhatIf => "WhatIf"@,
    }
}

/// The provisioning state named exactly `s`, if any.
pub open spec fn parse_state(s: Seq<char>) -> Option<ProvisioningState> {
    if s == "Succeeded"@ {
        Some(ProvisioningState::Succeeded)
    } else if s == "Failed"@ {
        Some(ProvisioningState::Failed)
    } else if s == "Canceled"@ {
        Some(ProvisioningState::Canceled)
    } else if s == "InProgress"@ {
        Some(ProvisioningState::InProgress)
    } else if s == "Deleting"@ {
        Some(ProvisioningState::Deleting)
    } else if s == "WhatIf"@ {
        Some(ProvisioningState::WhatIf)
    } else {
        None
    }
}

/// A deployment whose reported state is `s` has come to an end: it succeeded, failed or was canceled.
pub open spec fn is_terminal(s: Seq<char>) -> bool {
    parse_state(s) == Some(ProvisioningState::Succeeded) || parse_state(s) == Some(ProvisioningState::Failed)
        || parse_state(s) == Some(ProvisioningState::Canceled)
}

impl ProvisioningState {
    /// The state's name.
    pub fn to_string(&self) -> (r: String)
        ensures
            r@ == state_name(*self),
    {
        match self {
            ProvisioningState::Succeeded => owned("Succeeded"),
            ProvisioningState::Failed => owned("Failed"),
            ProvisioningState::Canceled => owned("Canceled"),
            ProvisioningState::InProgress => owned("InProgress"),
            ProvisioningState::Deleting => owned("Deleting"),
            ProvisioningState::WhatIf => owned("WhatIf"),
        }
    }

    /// The state named exactly `s` (letter case counts), if any.
    pub fn from_str(s: &str) -> (r: Option<ProvisioningState>)
        ensures
            r == parse_state(s@),
    {
        if str_eq(s, "Succeeded") {
            Some(ProvisioningState::Succeeded)
        } else if str_eq(s, "Failed") {
            Some(ProvisioningState::Failed)
        } else if str_eq(s, "Canceled") {
            Some(ProvisioningState::Canceled)
        } else if str_eq(s, "InProgress") {
            Some(ProvisioningState::InProgress)
        } else if str_eq(s, "Deleting") {
            Some(ProvisioningState::Deleting)
        } else if str_eq(s, "WhatIf") {
            Some(ProvisioningState::WhatIf)
        } else {
            None
        }
    }
}

/// Reading a state's name gives the state back.
pub proof fn lemma_state_name_round_trip(p: ProvisioningState)
    ensures
        parse_state(state_name(p)) == Some(p),
{
    reveal_strlit("Succeeded");
    reveal_strlit("Failed");
    reveal_strlit("Canceled");
    reveal_strlit("InProgress");
    reveal_strlit("Deleting");
    reveal_strlit("WhatIf");
    assert("Succeeded"@[0] != "Failed"@[0]);
    assert("Succeeded"@[0] != "Canceled"@[0]);
    assert("Succeeded"@[0] != "InProgress"@[0]);
    assert("Succeeded"@[0] != "Deleting"@[0]);
    assert("Succeeded"@[0] != "WhatIf"@[0]);
    assert("Failed"@[0] != "Canceled"@[0]);
    assert("Failed"@[0] != "InProgress"@[0]);
    assert("Failed"@[0] != "Deleting"@[0]);
    assert("Failed"@[0] != "WhatIf"@[0]);
    assert("Canceled"@[0] != "InProgress"@[0]);
    assert("Canceled"@[0] != "Deleting"@[0]);
    assert("Canceled"@[0] != "WhatIf"@[0]);
    assert("InProgress"@[0] != "Deleting"@[0]);
    assert("InProgress"@[0] != "WhatIf"@[0]);
    assert("Deleting"@[0] != "WhatIf"@[0]);
}

/// What a deployment monitor asks its caller to do next.
#[derive(Clone, Copy, Debug, PartialEq, Eq, Structural)]
pub enum DeploymentAction {
    /// Submit the deployment (or the deletion) to Azure.
    Submit,
    /// Wait this many seconds, then read the container group's state.
    Poll(u64),
    /// Stop: the outcome is the monitor's container name and result.
    Finish,
}

/// What the caller reports back after a call to Azure.
pub enum DeploymentEvent {
    /// The call returned, and the container group reported this provisioning state.
    Reported(String),
    /// The call returned an error.
    CallFailed,
}

/// Follows the deployment (or the deletion) of one container group until Azure reports an end state.
pub struct DeploymentMonitor {
    pub ci_name: String,
    /// The last provisioning state reported, or `Failed` for a failed call, or `WhatIf` for a dry run.
    pub result: String,
    pub finished: bool,
}

/// The seconds to wait between two reads of a deployment's state.
pub open spec fn poll_delay() -> u64 {
    15
}

/// The state a call reports: the state it returned, or `Failed` when it failed.
pub open spec fn reported_state(event: DeploymentEvent) -> Seq<char> {
    match event {
        DeploymentEvent::Reported(s) => s@,
        DeploymentEvent::CallFailed => "Failed"@,
    }
}

impl DeploymentMonitor {
    /// Starts following the deployment of `ci_name`. A dry run finishes at once with the result
    /// `WhatIf` and is never submitted; otherwise the caller is asked to submit it.
    pub fn start(ci_name: String, what_if: bool) -> (r: (DeploymentMonitor, DeploymentAction))
        ensures
            r.0.ci_name@ == ci_name@,
            what_if ==> r.0.finished && r.0.result@ == "WhatIf"@ && r.1 == DeploymentAction::Finish,
            !what_if ==> !r.0.finished && r.0.result@ == Seq::<char>::empty() && r.1 == DeploymentAction::Submit,
    {
        if what_if {
            (DeploymentMonitor { ci_name, result: owned("WhatIf"), finished: true }, DeploymentAction::Finish)
        } else {
            (DeploymentMonitor { ci_name, result: String::new(), finished: false }, DeploymentAction::Submit)
        }
    }

    /// Takes in what a call to Azure gave: the deployment finishes when the state it reports is
    /// `Succeeded`, `Failed` or `Canceled` (a failed call counts as `Failed`); otherwise the
    /// caller is asked to wait and read the state again.
    pub fn step(self, event: DeploymentEvent) -> (r: (DeploymentMonitor, DeploymentAction))
        requires
            !self.finished,
        ensures
            r.0.ci_name@ == self.ci_name@,
            r.0.result@ == reported_state(event),
            r.0.finished == is_terminal(reported_state(event)),
            r.1 == if is_terminal(reported_state(event)) {
                DeploymentAction::Finish
            } else {
                DeploymentAction::Poll(poll_delay())
            },
    {
        let result = match event {
            DeploymentEvent::Reported(s) => s,
            DeploymentEvent::CallFailed => owned("Failed"),
        };
        let terminal = match ProvisioningState::from_str(result.as_str()) {
            Some(ProvisioningState::Succeeded) => true,
            Some(ProvisioningState::Failed) => true,
            Some(ProvisioningState::Canceled) => true,
            _ => false,
        };
        let action = if terminal {
            DeploymentAction::Finish
        } else {
            DeploymentAction::Poll(15)
        };
        (DeploymentMonitor { ci_name: self.ci_name, result, finished: terminal }, action)
    }

    /// The container group's name and the deployment's result.
    pub fn outcome(&self) -> (r: (String, String))
        ensures
            r.0@ == self.ci_name@,
            r.1@ == self.result@,
    {
        (self.ci_name.clone(), self.result.clone())
    }
}

/// A failed call to Azure ends the deployment with the result `Failed`.
pub proof fn lemma_failed_call_finishes()
    ensures
        is_terminal(reported_state(DeploymentEvent::CallFailed)),
{
    lemma_state_name_round_trip(ProvisioningState::Failed);
}

/// A reported state ends a deployment exactly when it is `Succeeded`, `Failed` or `Canceled`;
/// `InProgress`, `Deleting` and every other text keep the monitor waiting.
pub proof fn lemma_end_states_exactly(s: Seq<char>)
    ensures
        is_terminal(s) <==> (s == "Succeeded"@ || s == "Failed"@ || s == "Canceled"@),
        !is_terminal("Deleting"@),
        !is_terminal("InProgress"@),
{
    reveal_strlit("Succeeded");
    reveal_strlit("Failed");
    reveal_strlit("Canceled");
    reveal_strlit("InProgress");
    reveal_strlit("Deleting");
    reveal_strlit("WhatIf");
    assert("Succeeded"@[0] != "Failed"@[0]);
    assert("Succeeded"@[0] != "Canceled"@[0]);
    assert("Failed"@[0] != "Canceled"@[0]);
    assert("Deleting"@[0] != "Succeeded"@[0]);
    assert("Deleting"@[0] != "Failed"@[0]);
    assert("Deleting"@[0] != "Canceled"@[0]);
    assert("Deleting"@[0] != "InProgress"@[0]);
    assert("InProgress"@[0] != "Succeeded"@[0]);
    assert("InProgress"@[0] != "Failed"@[0]);
    assert("InProgress"@[0] != "Canceled"@[0]);
}

/// A dry run is not an end state: only a monitor started as one finishes with `WhatIf`.
pub proof fn lemma_what_if_not_terminal()
    ensures
        !is_terminal("WhatIf"@),
{
    lemma_state_name_round_trip(ProvisioningState::WhatIf);
}


/// Characters Azure allows in a container group name: lowercase letters, digits and `-`.
pub open spec fn is_name_char(c: char) -> bool {
    ('a' <= c && c <= 'z') || ('0' <= c && c <= '9') || c == '-'
}

/// Azure's rule for container group names: 1 to 63 lowercase letters, digits and hyphens,
/// neither starting nor ending with a hyphen, with no two hyphens in a row.
pub open spec fn valid_container_group_name(s: Seq<char>) -> bool {
    &&& 1 <= s.len() <= 63
    &&& forall|i: int| 0 <= i < s.len() ==> is_name_char(#[trigger] s[i])
    &&& s[0] != '-'
    &&& s[s.len() - 1] != '-'
    &&& forall|i: int| 0 <= i < s.len() - 1 ==> !(#[trigger] s[i] == '-' && s[i + 1] == '-')
}

/// A lowercase hexadecimal digit.
pub open spec fn is_hex_lower(c: char) -> bool {
    ('0' <= c && c <= '9') || ('a' <= c && c <= 'f')
}

/// A UUID in lowercase hyphenated form, such as `67e55044-10b1-426f-9247-bb680e5fe0c8`.
pub open spec fn is_hyphenated_uuid(s: Seq<char>) -> bool {
    &&& s.len() == 36
    &&& forall|i: int|
        0 <= i < 36 ==> if i == 8 || i == 13 || i == 18 || i == 23 {
            #[trigger] s[i] == '-'
        } else {
            is_hex_lower(s[i])
        }
}

/// A hyphenated UUID of version 4 (random), of the RFC 4122 variant: the version digit is `4`
/// and the digit that opens the fourth group is one of `8`, `9`, `a`, `b`.
pub open spec fn is_uuid_v4(s: Seq<char>) -> bool {
    &&& is_hyphenated_uuid(s)
    &&& s[14] == '4'
    &&& (s[19] == '8' || s[19] == '9' || s[19] == 'a' || s[19] == 'b')
}

/// The last Unix time of the year 9999 (UTC), the last year whose number has four digits.
pub open spec fn last_four_digit_year_secs() -> int {
    253402300799
}

/// A date written as `%Y%m%d` for a year of four digits: eight decimal digits.
pub open spec fn is_ymd(s: Seq<char>) -> bool {
    &&& s.len() == 8
    &&& forall|i: int| 0 <= i < 8 ==> '0' <= #[trigger] s[i] && s[i] <= '9'
}

/// The name of the container instance made on `date` with the unique id `uuid`.
pub open spec fn ci_name_spec(date: Seq<char>, uuid: Seq<char>) -> Seq<char> {
    "nextflow-"@ + date + "-"@ + uuid
}

/// What `chrono` writes with `%Y%m%d` for the UTC date of the Unix time `secs`; `None` when
/// `DateTime::from_timestamp` does not accept the time.
pub uninterp spec fn utc_date_ymd(secs: int) -> Option<Seq<char>>;

/// Calls `chrono::DateTime::<Utc>::from_timestamp(secs, 0)` and formats the date with
/// `%Y%m%d`. The contract claims that the result is `utc_date_ymd(secs)`, and that from the
/// Unix epoch to the end of the year 9999 it is a date of eight digits: `from_timestamp`
/// accepts those times, and `chrono` writes a year from 1000 to 9999 with four digits and the
/// month and day with two, zero-padded. Which date a time falls on is not stated.
#[verifier::external_body]
fn format_utc_date(secs: i64) -> (r: Option<String>)
    ensures
        opt_view(r) == utc_date_ymd(secs as int),
        0 <= secs <= last_four_digit_year_secs() ==> r is Some && is_ymd(r->0@),
{
    chrono::DateTime::<chrono::Utc>::from_timestamp(secs, 0).map(|d| d.format("%Y%m%d").to_string())
}

/// Calls `uuid::Uuid::new_v4()` and writes it with `Display`, which the `uuid` crate writes
/// in lowercase hyphenated form; `new_v4` fixes the version bits to 4 and the variant bits to
/// `10`. The value is random: the contract claims only its form.
#[verifier::external_body]
fn new_uuid_v4() -> (r: String)
    ensures
        is_uuid_v4(r@),
{
    uuid::Uuid::new_v4().to_string()
}

/// A variable in a container's environment.
pub struct EnvironmentVariable {
    pub name: String,
    pub value: String,
}

/// When Azure restarts the containers of a group.
#[derive(Clone, Copy, Debug, PartialEq, Eq, Structural)]
pub enum RestartPolicy {
    Always,
    OnFailure,
    Never,
}

/// The operating system a container group runs.
#[derive(Clone, Copy, Debug, PartialEq, Eq, Structural)]
pub enum OsType {
    Linux,
    Windows,
}

/// The container group the dispatcher deploys to run `nxfutil`.
pub struct ContainerDefinition {
    pub name: String,
    pub image: String,
    pub command: Vec<String>,
    pub environment_variables: Vec<EnvironmentVariable>,
    pub registry_server: String,
    pub registry_username: String,
    pub registry_password: String,
    /// The resource id of the user assigned identity the container runs as.
    pub identity_id: String,
    pub location: String,
    /// `Never`: once `nxfutil` ends, the container stays stopped.
    pub restart_policy: RestartPolicy,
    pub os_type: OsType,
    /// The CPU cores the container asks for.
    pub cpu_cores: u32,
    /// The memory the container asks for, in GB.
    pub memory_gb: u32,
}

/// The views of the environment variables of a container.
pub open spec fn env_views(v: Seq<EnvironmentVariable>) -> Seq<(Seq<char>, Seq<char>)> {
    v.map_values(|e: EnvironmentVariable| (e.name@, e.value@))
}

/// The resource id of the Function App's user assigned identity.
pub open spec fn identity_id_spec(sub_id: Seq<char>, rg_name: Seq<char>, msi_name: Seq<char>) -> Seq<char> {
    "/subscriptions/"@ + sub_id + "/resourcegroups/"@ + rg_name
        + "/providers/Microsoft.ManagedIdentity/userAssignedIdentities/"@ + msi_name
}

/// Deploys and deletes the container instances that run `nxfutil`.
pub struct AppAzMgmtContainerInstance {}

fn env_var(name: &str, value: &String) -> (r: EnvironmentVariable)
    ensures
        r.name@ == name@,
        r.value@ == value@,
{
    EnvironmentVariable { name: owned(name), value: value.clone() }
}

impl AppAzMgmtContainerInstance {
    /// The name of the container instance made on `date` with the unique id `uuid`.
    pub fn ci_name(date: &str, uuid: &str) -> (r: String)
        ensures
            r@ == ci_name_spec(date@, uuid@),
    {
        let mut r = owned("nextflow-");
        r.append(date);
        r.append("-");
        r.append(uuid);
        r
    }

    /// A new, unique container instance name for the Unix time `now_secs`: `nextflow-`, the UTC
    /// date as `%Y%m%d`, `-` and a random UUID. `None` when `chrono` cannot read the time. From
    /// 1970 to the end of the year 9999 there is always a name: its date has eight digits, it is
    /// 54 characters long, and it meets Azure's rule for container group names.
    pub fn unique_ci_name(now_secs: i64) -> (r: Option<String>)
        ensures
            r is None <==> utc_date_ymd(now_secs as int) is None,
            r matches Some(n) ==> exists|u: Seq<char>|
                is_uuid_v4(u) && #[trigger] ci_name_spec(utc_date_ymd(now_secs as int)->0, u) == n@,
            0 <= now_secs <= last_four_digit_year_secs() ==> (r matches Some(n)
                && is_ymd(utc_date_ymd(now_secs as int)->0) && n@.len() == 54
                && valid_container_group_name(n@)),
    {
        match format_utc_date(now_secs) {
            None => None,
            Some(date) => {
                let u = new_uuid_v4();
                let n = Self::ci_name(date.as_str(), u.as_str());
                assert(utc_date_ymd(now_secs as int)->0 == date@);
                assert(ci_name_spec(utc_date_ymd(now_secs as int)->0, u@) == n@);
                proof {
                    if 0 <= now_secs <= last_four_digit_year_secs() {
                        lemma_ci_name_valid(date@, u@);
                        reveal_strlit("nextflow-");
                        reveal_strlit("-");
                    }
                }
                Some(n)
            },
        }
    }

    /// The resource id of the Function App's user assigned identity.
    pub fn identity_id(variables: &AppVariables) -> (r: String)
        ensures
            r@ == identity_id_spec(variables.sub_id@, variables.rg_name@, variables.msi_name@),
    {
        let mut r = owned("/subscriptions/");
        r.append(variables.sub_id.as_str());
        r.append("/resourcegroups/");
        r.append(variables.rg_name.as_str());
        r.append("/providers/Microsoft.ManagedIdentity/userAssignedIdentities/");
        r.append(variables.msi_name.as_str());
        r
    }

    /// The JSON object that names the user assigned identity of a container group.
    pub fn user_assigned_identities_json(variables: &AppVariables) -> (r: String)
        ensures
            r@ == "{\""@ + identity_id_spec(variables.sub_id@, variables.rg_name@, variables.msi_name@)
                + "\":{}}"@,
    {
        let id = Self::identity_id(variables);
        let mut r = owned("{\"");
        r.append(id.as_str());
        r.append("\":{}}");
        r
    }

    /// The container group that runs `nxfutil_cmd` under the name `ci_name` in `location`: the
    /// registry's `nextflow` image, started through `bash` in `/.nextflow`, with the identity,
    /// Key Vault and Function App it reports to in its environment; a Linux group of one CPU
    /// core and 1 GB of memory that is never restarted, so that it stops when `nxfutil` ends.
    pub fn container_definition(
        variables: &AppVariables,
        secrets: &AppSecrets,
        ci_name: &str,
        nxfutil_cmd: &str,
        location: &str,
    ) -> (r: ContainerDefinition)
        ensures
            r.name@ == ci_name@,
            r.image@ == variables.cr_name@ + ".azurecr.io/default/nextflow:latest"@,
            views(r.command@) == seq!["/bin/bash"@, "-c"@, "cd /.nextflow && ./"@ + nxfutil_cmd@],
            env_views(r.environment_variables@) == seq![
                ("AZURE_CLIENT_ID"@, variables.msi_client_id@),
                ("AZURE_KEYVAULT_NAME"@, variables.kv_name@),
                ("AZURE_FUNCAPP_NAME"@, variables.fn_name@),
                ("NXFUTIL_DISPATCHER"@, ci_name@),
            ],
            r.registry_server@ == secrets.cr_server@,
            r.registry_username@ == secrets.cr_username@,
            r.registry_password@ == secrets.cr_password@,
            r.identity_id@ == identity_id_spec(variables.sub_id@, variables.rg_name@, variables.msi_name@),
            r.location@ == location@,
            r.restart_policy == RestartPolicy::Never,
            r.os_type == OsType::Linux,
            r.cpu_cores == 1,
            r.memory_gb == 1,
    {
        let mut image = variables.cr_name.clone();
        image.append(".azurecr.io/default/nextflow:latest");
        let mut run = owned("cd /.nextflow && ./");
        run.append(nxfutil_cmd);
        let mut command: Vec<String> = Vec::new();
        command.push(owned("/bin/bash"));
        command.push(owned("-c"));
        command.push(run);
        let ci = owned(ci_name);
        let mut env: Vec<EnvironmentVariable> = Vec::new();
        env.push(env_var("AZURE_CLIENT_ID", &variables.msi_client_id));
        env.push(env_var("AZURE_KEYVAULT_NAME", &variables.kv_name));
        env.push(env_var("AZURE_FUNCAPP_NAME", &variables.fn_name));
        env.push(env_var("NXFUTIL_DISPATCHER", &ci));
        assert(views(command@) =~= seq!["/bin/bash"@, "-c"@, "cd /.nextflow && ./"@ + nxfutil_cmd@]);
        assert(env_views(env@) =~= seq![
            ("AZURE_CLIENT_ID"@, variables.msi_client_id@),
            ("AZURE_KEYVAULT_NAME"@, variables.kv_name@),
            ("AZURE_FUNCAPP_NAME"@, variables.fn_name@),
            ("NXFUTIL_DISPATCHER"@, ci_name@),
        ]);
        ContainerDefinition {
            name: owned(ci_name),
            image,
            command,
            environment_variables: env,
            registry_server: secrets.cr_server.clone(),
            registry_username: secrets.cr_username.clone(),
            registry_password: secrets.cr_password.clone(),
            identity_id: Self::identity_id(variables),
            location: owned(location),
            restart_policy: RestartPolicy::Never,
            os_type: OsType::Linux,
            cpu_cores: 1,
            memory_gb: 1,
        }
    }
}

/// A name made of a date of eight digits and a hyphenated lowercase UUID meets Azure's rule for
/// container group names.
pub proof fn lemma_ci_name_valid(date: Seq<char>, uuid: Seq<char>)
    requires
        is_ymd(date),
        is_hyphenated_uuid(uuid),
    ensures
        valid_container_group_name(ci_name_spec(date, uuid)),
{
    reveal_strlit("nextflow-");
    reveal_strlit("-");
    let p = "nextflow-"@;
    assert(p =~= seq!['n', 'e', 'x', 't', 'f', 'l', 'o', 'w', '-']);
    assert("-"@ =~= seq!['-']);
    let s = ci_name_spec(date, uuid);
    assert(s.len() == 54);
    assert forall|i: int| 0 <= i < s.len() implies is_name_char(#[trigger] s[i]) by {
        if i < 9 {
            assert(s[i] == p[i]);
        } else if i < 17 {
            assert(s[i] == date[i - 9]);
        } else if i == 17 {
            assert(s[i] == '-');
        } else {
            assert(s[i] == uuid[i - 18]);
        }
    }
    assert(s[0] == 'n');
    assert(s[53] == uuid[35]);
    assert forall|i: int| 0 <= i < s.len() - 1 implies !(#[trigger] s[i] == '-' && s[i + 1] == '-') by {
        if i < 8 {
            assert(s[i] == p[i]);
        } else if i == 8 {
            assert(s[i + 1] == date[0]);
        } else if i < 16 {
            assert(s[i] == date[i - 9]);
        } else if i == 16 {
            assert(s[i] == date[7]);
        } else if i == 17 {
            assert(s[i + 1] == uuid[0]);
        } else {
            assert(s[i] == uuid[i - 18]);
            assert(s[i + 1] == uuid[i - 17]);
        }
    }
}


/// Every name `unique_ci_name` gives on a day whose date has eight digits meets Azure's rule
/// for container group names.
pub proof fn lemma_unique_ci_name_valid(date: Seq<char>, name: Seq<char>)
    requires
        is_ymd(date),
        exists|u: Seq<char>| is_hyphenated_uuid(u) && #[trigger] ci_name_spec(date, u) == name,
    ensures
        valid_container_group_name(name),
{
    let u = choose|u: Seq<char>| is_hyphenated_uuid(u) && #[trigger] ci_name_spec(date, u) == name;
    lemma_ci_name_valid(date, u);
}

} // verus!

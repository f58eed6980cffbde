use vstd::prelude::*;
use crate::server::{App, AppServer};
use crate::text::{owned, str_eq};

verus! {

/// What `str::to_lowercase` returns for `s`.
pub uninterp spec fn lowercase(s: Seq<char>) -> Seq<char>;

/// Calls `str::to_lowercase`; the contract claims only that the result is `lowercase(s)`.
#[verifier::external_body]
pub(crate) fn to_lowercase(s: &str) -> (r: String)
    ensures
        r@ == lowercase(s@),
{
    s.to_lowercase()
}

/// The view of an optional string.
pub open spec fn opt_view(o: Option<String>) -> Option<Seq<char>> {
    match o {
        None => None,
        Some(s) => Some(s@),
    }
}

/// The value of the last pair whose key is `key`: a key given twice in a query string keeps
/// the value given last, as a map filled from it in order does.
pub open spec fn lookup(pairs: Seq<(Seq<char>, Seq<char>)>, key: Seq<char>) -> Option<Seq<char>>
    decreases pairs.len(),
{
    if pairs.len() == 0 {
        None
    } else if pairs.last().0 == key {
        Some(pairs.last().1)
    } else {
        lookup(pairs.drop_last(), key)
    }
}

/// The parameters of a request URL, as the key and value pairs of its query string, in the order
/// the query string gives them; where a key comes more than once, the last value counts, as in a
/// map filled from the query string in order.
pub struct QueryMap {
    pub pairs: Vec<(String, String)>,
}

impl View for QueryMap {
    type V = Seq<(Seq<char>, Seq<char>)>;

    open spec fn view(&self) -> Seq<(Seq<char>, Seq<char>)> {
        self.pairs@.map_values(|p: (String, String)| (p.0@, p.1@))
    }
}

impl QueryMap {
    /// The value given for `key`; where the key is given more than once, the last value.
    pub fn get(&self, key: &str) -> (r: Option<String>)
        ensures
            opt_view(r) == lookup(self@, key@),
    {
        let n = self.pairs.len();
        let mut i: usize = n;
        assert(self@.take(n as int) =~= self@);
        while i > 0
            invariant
                n == self.pairs@.len(),
                i <= n,
                lookup(self@, key@) == lookup(self@.take(i as int), key@),
            decreases i,
        {
            let ghost front = self@.take(i as int);
            assert(front.last() == (self.pairs@[i - 1].0@, self.pairs@[i - 1].1@));
            if str_eq(self.pairs[i - 1].0.as_str(), key) {
                return Some(self.pairs[i - 1].1.clone());
            }
            assert(front.drop_last() =~= self@.take(i - 1));
            i -= 1;
        }
        None
    }
}

/// The command line `nxfutil` is started with: each URI that is given, then `-d` for auto delete.
pub open spec fn nxfutil_cmd(config_uri: Seq<char>, pipeline_uri: Seq<char>, parameters_uri: Seq<char>, auto_delete: bool) -> Seq<char> {
    let c1 = if config_uri.len() == 0 { "nxfutil"@ } else { "nxfutil"@ + " -c "@ + config_uri };
    let c2 = if pipeline_uri.len() == 0 { c1 } else { c1 + " -p "@ + pipeline_uri };
    let c3 = if parameters_uri.len() == 0 { c2 } else { c2 + " -a "@ + parameters_uri };
    if auto_delete { c3 + " -d"@ } else { c3 }
}

/// `cmd` followed by the Nextflow parameters, in single quotes, when they are given.
pub open spec fn with_parameters_json(cmd: Seq<char>, parameters_json: Option<Seq<char>>) -> Seq<char> {
    match parameters_json {
        None => cmd,
        Some(j) => cmd + " -j '"@ + j + "'"@,
    }
}

/// A URI of the request body when it is not empty, else the one in the URL, else none.
pub open spec fn pick_uri(payload: Seq<char>, url: Option<Seq<char>>) -> Seq<char> {
    if payload.len() > 0 {
        payload
    } else {
        match url {
            Some(u) => u,
            None => Seq::empty(),
        }
    }
}

/// A URI given in the request body takes precedence over the one in the URL; the URL's is used
/// only when the body leaves it empty.
pub proof fn lemma_payload_takes_precedence(payload: Seq<char>, url: Option<Seq<char>>)
    ensures
        payload.len() > 0 ==> pick_uri(payload, url) == payload,
        payload.len() == 0 && url is Some ==> pick_uri(payload, url) == url->0,
        payload.len() == 0 && url is None ==> pick_uri(payload, url).len() == 0,
{
}

/// A request that leaves every URI empty starts `nxfutil` with no file options, so that it
/// runs its default config, pipeline and parameters.
pub proof fn lemma_empty_request_runs_defaults(auto_delete: bool)
    ensures
        nxfutil_cmd(Seq::empty(), Seq::empty(), Seq::empty(), auto_delete) == if auto_delete {
            "nxfutil"@ + " -d"@
        } else {
            "nxfutil"@
        },
{
}

/// Auto delete only appends ` -d` to the command line; the URIs' options are the same either way.
pub proof fn lemma_auto_delete_appends_flag(config_uri: Seq<char>, pipeline_uri: Seq<char>, parameters_uri: Seq<char>)
    ensures
        nxfutil_cmd(config_uri, pipeline_uri, parameters_uri, true) == nxfutil_cmd(
            config_uri,
            pipeline_uri,
            parameters_uri,
            false,
        ) + " -d"@,
{
}

/// Each URI adds its option, `-c`, `-p` or `-a` followed by the URI, exactly when it is not empty,
/// in that order after `nxfutil`, whatever the other URIs are.
pub proof fn lemma_each_uri_adds_its_option(config_uri: Seq<char>, pipeline_uri: Seq<char>, parameters_uri: Seq<char>)
    ensures
        nxfutil_cmd(config_uri, pipeline_uri, parameters_uri, false) == nxfutil_cmd(
            config_uri,
            pipeline_uri,
            Seq::empty(),
            false,
        ) + if parameters_uri.len() == 0 { Seq::empty() } else { " -a "@ + parameters_uri },
        nxfutil_cmd(config_uri, pipeline_uri, Seq::empty(), false) == nxfutil_cmd(
            config_uri,
            Seq::empty(),
            Seq::empty(),
            false,
        ) + if pipeline_uri.len() == 0 { Seq::empty() } else { " -p "@ + pipeline_uri },
        nxfutil_cmd(config_uri, Seq::empty(), Seq::empty(), false) == "nxfutil"@ + if config_uri.len() == 0 {
            Seq::empty()
        } else {
            " -c "@ + config_uri
        },
{
    let c1 = if config_uri.len() == 0 { "nxfutil"@ } else { "nxfutil"@ + " -c "@ + config_uri };
    let c2 = if pipeline_uri.len() == 0 { c1 } else { c1 + " -p "@ + pipeline_uri };
    assert(c1 =~= "nxfutil"@ + if config_uri.len() == 0 { Seq::empty() } else { " -c "@ + config_uri });
    assert(c2 =~= c1 + if pipeline_uri.len() == 0 { Seq::empty() } else { " -p "@ + pipeline_uri });
    assert((if parameters_uri.len() == 0 { c2 } else { c2 + " -a "@ + parameters_uri }) =~= c2
        + if parameters_uri.len() == 0 { Seq::empty() } else { " -a "@ + parameters_uri });
}

/// The body of a dispatch request.
pub struct DispatchRequestPayload {
    pub config_uri: String,
    pub pipeline_uri: String,
    pub parameters_uri: String,
    /// The Nextflow parameters as the JSON text of their list, when given.
    pub parameters_json: Option<String>,
    pub auto_delete: bool,
}

/// `cmd` followed by `flag` and `value` when `value` is not empty.
fn append_option(cmd: String, flag: &str, value: &str) -> (r: String)
    ensures
        r@ == if value@.len() == 0 { cmd@ } else { cmd@ + flag@ + value@ },
{
    if value.is_empty() {
        cmd
    } else {
        let mut c = cmd;
        c.append(flag);
        c.append(value);
        c
    }
}

/// The `nxfutil` command line for the given URIs and auto-delete flag.
fn build_nxfutil_cmd(config_uri: &str, pipeline_uri: &str, parameters_uri: &str, auto_delete: bool) -> (r: String)
    ensures
        r@ == nxfutil_cmd(config_uri@, pipeline_uri@, parameters_uri@, auto_delete),
{
    let c = owned("nxfutil");
    let c = append_option(c, " -c ", config_uri);
    let c = append_option(c, " -p ", pipeline_uri);
    let c = append_option(c, " -a ", parameters_uri);
    if auto_delete {
        let mut c = c;
        c.append(" -d");
        c
    } else {
        c
    }
}

impl AppServer {
    /// The `nxfutil` command line for a dispatch request: the URIs it gives, `-d` when it asks
    /// for auto delete, and its Nextflow parameters, quoted, when it has them.
    pub fn generate_nxfutil_cmd(req_payload: &DispatchRequestPayload) -> (r: String)
        ensures
            r@ == with_parameters_json(
                nxfutil_cmd(
                    req_payload.config_uri@,
                    req_payload.pipeline_uri@,
                    req_payload.parameters_uri@,
                    req_payload.auto_delete,
                ),
                opt_view(req_payload.parameters_json),
            ),
    {
        let c = build_nxfutil_cmd(
            req_payload.config_uri.as_str(),
            req_payload.pipeline_uri.as_str(),
            req_payload.parameters_uri.as_str(),
            req_payload.auto_delete,
        );
        match &req_payload.parameters_json {
            None => c,
            Some(j) => {
                let mut c = c;
                c.append(" -j '");
                c.append(j.as_str());
                c.append("'");
                c
            },
        }
    }
}

/// A URI of the request body when it is not empty, else the one given in the URL under `key`.
fn uri_from(payload: &String, url_params: &QueryMap, key: &str) -> (r: String)
    ensures
        r@ == pick_uri(payload@, lookup(url_params@, key@)),
{
    if !payload.as_str().is_empty() {
        payload.clone()
    } else {
        match url_params.get(key) {
            Some(u) => u,
            None => String::new(),
        }
    }
}

impl App {
    /// The `nxfutil` command line for a dispatch request whose URIs may also come from the URL;
    /// a URI of the request body takes precedence over the URL's.
    pub fn generate_nxfutil_cmd(req_payload: &DispatchRequestPayload, url_params: &QueryMap) -> (r: String)
        ensures
            r@ == nxfutil_cmd(
                pick_uri(req_payload.config_uri@, lookup(url_params@, "config_uri"@)),
                pick_uri(req_payload.pipeline_uri@, lookup(url_params@, "pipeline_uri"@)),
                pick_uri(req_payload.parameters_uri@, lookup(url_params@, "parameters_uri"@)),
                req_payload.auto_delete,
            ),
    {
        let config_uri = uri_from(&req_payload.config_uri, url_params, "config_uri");
        let pipeline_uri = uri_from(&req_payload.pipeline_uri, url_params, "pipeline_uri");
        let parameters_uri = uri_from(&req_payload.parameters_uri, url_params, "parameters_uri");
        build_nxfutil_cmd(config_uri.as_str(), pipeline_uri.as_str(), parameters_uri.as_str(), req_payload.auto_delete)
    }

    /// Whether the URL asks for a dry run: its `whatif` parameter is `true` in any letter case.
    pub fn what_if(url_params: &QueryMap) -> (r: bool)
        ensures
            r == match lookup(url_params@, "whatif"@) {
                Some(v) => lowercase(v) == "true"@,
                None => false,
            },
    {
        match url_params.get("whatif") {
            Some(v) => {
                let l = to_lowercase(v.as_str());
                str_eq(l.as_str(), "true")
            },
            None => false,
        }
    }
}

} // verus!

use vstd::prelude::*;
use crate::package::PackagedTarball;
use crate::manifest::opt_view;
use crate::path::full_package_name;

verus! {

/// The HTTP method of a registry call.
#[derive(Clone, Copy, Debug, PartialEq, Eq, Structural)]
pub enum HttpMethod {
    Get,
    Post,
    Put,
}

/// A file sent as one part of a multipart form.
pub struct Upload {
    /// Name of the form field.
    pub field: String,
    /// File name announced for the part.
    pub file_name: String,
    pub mime_type: String,
    /// Local file whose bytes form the part.
    pub file_path: String,
}

/// One call to the registry, as the transport is to perform it.
pub struct RegistryRequest {
    pub method: HttpMethod,
    pub url: String,
    /// Value of the `Authorization` header, if any.
    pub authorization: Option<String>,
    pub upload: Option<Upload>,
}

/// What came back from one registry call.
pub enum Reply {
    /// The registry answered with this status and body.
    Received { status: u16, body: String },
    /// No answer: connection, name resolution or timeout failure.
    Unreachable { cause: String },
}

pub open spec fn is_success(status: u16) -> bool {
    200 <= status < 300
}

pub open spec fn is_client_error(status: u16) -> bool {
    400 <= status < 500
}

pub open spec fn digit_char(d: int) -> char {
    "0123456789"@[d]
}

/// Decimal digits of `n`.
pub open spec fn decimal(n: nat) -> Seq<char>
    decreases n,
{
    if n < 10 {
        seq![digit_char(n as int)]
    } else {
        decimal(n / 10).push(digit_char((n % 10) as int))
    }
}

/// The status code in decimal, e.g. `404`.
pub fn status_text(status: u16) -> (r: String)
    ensures
        r@ == decimal(status as nat),
{
    let digits = "0123456789";
    proof {
        reveal_strlit("0123456789");
    }
    let mut n: u16 = status;
    let mut rev: Vec<usize> = Vec::new();
    let ghost suffix: Seq<char> = Seq::empty();
    // digits are gathered least significant first
    while n >= 10
        invariant
            decimal(status as nat) == decimal(n as nat) + suffix,
            digits@ == "0123456789"@,
            digits@.len() == 10,
            rev@.len() == suffix.len(),
            forall|k: int| 0 <= k < rev@.len() ==> #[trigger] rev@[k] < 10,
            forall|k: int|
                0 <= k < rev@.len() ==> digit_char(#[trigger] rev@[k] as int) == suffix[suffix.len()
                    - 1 - k],
        decreases n,
    {
        let d = (n % 10) as usize;
        proof {
            assert(decimal(n as nat) == decimal((n / 10) as nat).push(digit_char(d as int)));
            assert(decimal(n as nat) + suffix =~= decimal((n / 10) as nat) + (seq![digit_char(d as int)] + suffix));
            suffix = seq![digit_char(d as int)] + suffix;
        }
        let ghost old_rev = rev@;
        rev.push(d);
        proof {
            assert forall|k: int| 0 <= k < rev@.len() implies digit_char(#[trigger] rev@[k] as int)
                == suffix[suffix.len() - 1 - k] by {
                if k < old_rev.len() {
                    assert(rev@[k] == old_rev[k]);
                }
            }
        }
        n = n / 10;
    }
    let mut r = String::from_str(digits.substring_char(n as usize, n as usize + 1));
    let mut i: usize = rev.len();
    while i > 0
        invariant
            i <= rev@.len(),
            digits@ == "0123456789"@,
            digits@.len() == 10,
            rev@.len() == suffix.len(),
            n < 10,
            decimal(status as nat) == decimal(n as nat) + suffix,
            forall|k: int| 0 <= k < rev@.len() ==> #[trigger] rev@[k] < 10,
            forall|k: int|
                0 <= k < rev@.len() ==> digit_char(#[trigger] rev@[k] as int) == suffix[suffix.len()
                    - 1 - k],
            r@ == decimal(n as nat) + suffix.subrange(0, suffix.len() - i),
        decreases i,
    {
        let d = rev[i - 1];
        r.append(digits.substring_char(d, d + 1));
        proof {
            let j = suffix.len() - i;
            assert(digit_char(rev@[i - 1] as int) == suffix[suffix.len() - 1 - (i - 1)]);
            assert(suffix.subrange(0, j + 1) =~= suffix.subrange(0, j).push(suffix[j]));
            assert(digits@.subrange(d as int, d + 1) =~= seq![digit_char(d as int)]);
        }
        i = i - 1;
    }
    assert(suffix.subrange(0, suffix.len() as int) =~= suffix);
    r
}

pub open spec fn package_url(registry: Seq<char>, name: Seq<char>, version: Seq<char>, fetch_yanked: bool) -> Seq<char> {
    registry + "/packages/"@ + name + "/"@ + version + if fetch_yanked {
        "/download?fetchYanked=true"@
    } else {
        "/download"@
    }
}

pub open spec fn latest_version_url(registry: Seq<char>, name: Seq<char>) -> Seq<char> {
    registry + "/packages/"@ + name + "/versions/latest"@
}

pub open spec fn publish_url(registry: Seq<char>, name: Seq<char>, version: Seq<char>) -> Seq<char> {
    registry + "/packages/"@ + name + "/"@ + version + "/publish"@
}

pub open spec fn yank_url(registry: Seq<char>, name: Seq<char>, version: Seq<char>) -> Seq<char> {
    registry + "/packages/"@ + name + "/"@ + version + "/yank"@
}

pub open spec fn auth_header(api_key: Seq<char>) -> Seq<char> {
    "Bearer "@ + api_key
}

fn package_path_url(registry_url: &str, package_name: &str, version: &str, tail: &str) -> (r: String)
    ensures
        r@ == registry_url@ + "/packages/"@ + package_name@ + "/"@ + version@ + tail@,
{
    let mut r = String::from_str(registry_url);
    r.append("/packages/");
    r.append(package_name);
    r.append("/");
    r.append(version);
    r.append(tail);
    r
}

/// The download URL of a package version; yanked versions are included on
/// request.
pub fn get_package_url(registry_url: &str, package_name: &str, version: &str, fetch_yanked: bool) -> (r: String)
    ensures
        r@ == package_url(registry_url@, package_name@, version@, fetch_yanked),
{
    if fetch_yanked {
        package_path_url(registry_url, package_name, version, "/download?fetchYanked=true")
    } else {
        package_path_url(registry_url, package_name, version, "/download")
    }
}

/// The URL that answers with the latest version of a package.
pub fn get_latest_package_version_url(registry_url: &str, package_name: &str) -> (r: String)
    ensures
        r@ == latest_version_url(registry_url@, package_name@),
{
    let mut r = String::from_str(registry_url);
    r.append("/packages/");
    r.append(package_name);
    r.append("/versions/latest");
    r
}

/// The URL a package version is published to.
pub fn get_publish_package_url(registry_url: &str, package_name: &str, version: &str) -> (r: String)
    ensures
        r@ == publish_url(registry_url@, package_name@, version@),
{
    package_path_url(registry_url, package_name, version, "/publish")
}

/// The URL that yanks a package version.
pub fn get_yank_package_url(registry_url: &str, package_name: &str, version: &str) -> (r: String)
    ensures
        r@ == yank_url(registry_url@, package_name@, version@),
{
    package_path_url(registry_url, package_name, version, "/yank")
}

/// The `Authorization` header value for an API key.
pub fn get_auth_header(api_key: &str) -> (r: String)
    ensures
        r@ == auth_header(api_key@),
{
    let mut r = String::from_str("Bearer ");
    r.append(api_key);
    r
}

/// The call that downloads a package version's archive.
pub fn download_package_api(registry_url: &str, package_name: &str, version: &str, fetch_yanked: bool) -> (r: RegistryRequest)
    ensures
        r.method == HttpMethod::Get,
        r.url@ == package_url(registry_url@, package_name@, version@, fetch_yanked),
        r.authorization is None,
        r.upload is None,
{
    RegistryRequest {
        method: HttpMethod::Get,
        url: get_package_url(registry_url, package_name, version, fetch_yanked),
        authorization: None,
        upload: None,
    }
}

/// The call that asks for the latest version of a package.
pub fn get_latest_package_version_api(registry_url: &str, package_name: &str) -> (r: RegistryRequest)
    ensures
        r.method == HttpMethod::Get,
        r.url@ == latest_version_url(registry_url@, package_name@),
        r.authorization is None,
        r.upload is None,
{
    RegistryRequest {
        method: HttpMethod::Get,
        url: get_latest_package_version_url(registry_url, package_name),
        authorization: None,
        upload: None,
    }
}

/// The call that yanks a package version.
pub fn yank_package_api(registry_url: &str, package_name: &str, version: &str, api_key: &str) -> (r: RegistryRequest)
    ensures
        r.method == HttpMethod::Put,
        r.url@ == yank_url(registry_url@, package_name@, version@),
        r.authorization matches Some(a) && a@ == auth_header(api_key@),
        r.upload is None,
{
    RegistryRequest {
        method: HttpMethod::Put,
        url: get_yank_package_url(registry_url, package_name, version),
        authorization: Some(get_auth_header(api_key)),
        upload: None,
    }
}

pub uninterp spec fn json_string_member(text: Seq<char>, key: Seq<char>) -> Option<Seq<char>>;

/// Relies on `serde_json::from_str::<serde_json::Value>`, `Value::get` and
/// `Value::as_str`: parses `text` as JSON and hands back the member `key` of
/// the top-level object when it is a string. The result depends on the two
/// texts alone.
#[verifier::external_body]
fn json_member(text: &str, key: &str) -> (r: Option<String>)
    ensures
        match r {
            Some(s) => json_string_member(text@, key@) == Some(s@),
            None => json_string_member(text@, key@).is_none(),
        },
{
    match serde_json::from_str::<serde_json::Value>(text) {
        Ok(v) => v.get(key).and_then(|m| m.as_str()).map(|s| s.to_string()),
        Err(_) => None,
    }
}

pub open spec fn or_unknown(message: Option<Seq<char>>) -> Seq<char> {
    match message {
        Some(m) => m,
        None => "Unknown error"@,
    }
}

/// The error message of a failed registry call: the registry's `message`
/// field, or `Unknown error`.
pub fn error_message(message: Option<String>) -> (r: String)
    ensures
        r@ == or_unknown(opt_view(message)),
{
    match message {
        Some(m) => m,
        None => String::from_str("Unknown error"),
    }
}

pub open spec fn download_failure(status: u16) -> Seq<char> {
    "Failed to download file: Received status code "@ + decimal(status as nat)
}

/// What a download reply means: success on a 2xx status, else an error
/// naming the status, or the transport's own error.
pub fn download_outcome(reply: &Reply) -> (r: Result<(), String>)
    ensures
        match *reply {
            Reply::Unreachable { cause } => r matches Err(e) && e@ == cause@,
            Reply::Received { status, .. } => if is_success(status) {
                r is Ok
            } else {
                r matches Err(e) && e@ == download_failure(status)
            },
        },
{
    match reply {
        Reply::Unreachable { cause } => Err(cause.clone()),
        Reply::Received { status, .. } => {
            if 200 <= *status && *status < 300 {
                Ok(())
            } else {
                let mut e = String::from_str("Failed to download file: Received status code ");
                let code = status_text(*status);
                e.append(code.as_str());
                Err(e)
            }
        },
    }
}

pub open spec fn latest_version_result(
    status: u16,
    version: Option<Seq<char>>,
    message: Option<Seq<char>>,
) -> Result<Seq<char>, Seq<char>> {
    if is_success(status) {
        match version {
            Some(v) => Ok(v),
            None => Err("Version field not found or is not a string"@),
        }
    } else {
        Err(or_unknown(message))
    }
}

/// What a latest-version reply means, given its `version` and `message`
/// fields: the version on success; otherwise the registry's message.
pub fn latest_version_outcome(status: u16, version: Option<String>, message: Option<String>) -> (r: Result<String, String>)
    ensures
        match r {
            Ok(v) => latest_version_result(status, opt_view(version), opt_view(message)) == Ok::<Seq<char>, Seq<char>>(v@),
            Err(e) => latest_version_result(status, opt_view(version), opt_view(message)) == Err::<Seq<char>, Seq<char>>(e@),
        },
{
    if 200 <= status && status < 300 {
        match version {
            Some(v) => Ok(v),
            None => Err(String::from_str("Version field not found or is not a string")),
        }
    } else {
        Err(error_message(message))
    }
}

/// What a latest-version reply means (see `latest_version_outcome`), with
/// the fields read from the JSON body.
pub fn latest_version_from_reply(reply: &Reply) -> (r: Result<String, String>)
    ensures
        match *reply {
            Reply::Unreachable { cause } => r matches Err(e) && e@ == cause@,
            Reply::Received { status, body } => match r {
                Ok(v) => latest_version_result(
                    status,
                    json_string_member(body@, "version"@),
                    json_string_member(body@, "message"@),
                ) == Ok::<Seq<char>, Seq<char>>(v@),
                Err(e) => latest_version_result(
                    status,
                    json_string_member(body@, "version"@),
                    json_string_member(body@, "message"@),
                ) == Err::<Seq<char>, Seq<char>>(e@),
            },
        },
{
    match reply {
        Reply::Unreachable { cause } => Err(cause.clone()),
        Reply::Received { status, body } => {
            let version = json_member(body.as_str(), "version");
            let message = json_member(body.as_str(), "message");
            latest_version_outcome(*status, version, message)
        },
    }
}


/// The call that publishes a packaged archive: a multipart POST whose `file`
/// part is the archive, named `name_version`, of type `application/gzip`.
pub fn publish_package_api(registry_url: &str, tarball: &PackagedTarball, api_key: &str) -> (r: RegistryRequest)
    ensures
        r.method == HttpMethod::Post,
        r.url@ == publish_url(registry_url@, tarball.name@, tarball.version@),
        r.authorization matches Some(a) && a@ == auth_header(api_key@),
        r.upload matches Some(u) && {
            &&& u.field@ == "file"@
            &&& u.file_name@ == full_package_name(tarball.name@, tarball.version@)
            &&& u.mime_type@ == "application/gzip"@
            &&& u.file_path@ == tarball.tarball_path@
        },
{
    let upload = Upload {
        field: String::from_str("file"),
        file_name: crate::path::get_full_package_name(tarball.name.as_str(), tarball.version.as_str()),
        mime_type: String::from_str("application/gzip"),
        file_path: tarball.tarball_path.clone(),
    };
    RegistryRequest {
        method: HttpMethod::Post,
        url: get_publish_package_url(registry_url, tarball.name.as_str(), tarball.version.as_str()),
        authorization: Some(get_auth_header(api_key)),
        upload: Some(upload),
    }
}

pub open spec fn missing_key_text(action: Seq<char>, home_url: Seq<char>) -> Seq<char> {
    "Cannot "@ + action + " a package. API KEY env variable not found.\n\nPlease generate an API KEY with \""@
        + action + "\" scope key at "@ + home_url
        + "/dashboard.\n\nIf you already have an API KEY, please export it before running "@ + action
        + " command:\nexport API_KEY=<your api key>"@
}

fn missing_key_message(action: &str, home_url: &str) -> (r: String)
    ensures
        r@ == missing_key_text(action@, home_url@),
{
    let mut r = String::from_str("Cannot ");
    r.append(action);
    r.append(" a package. API KEY env variable not found.\n\nPlease generate an API KEY with \"");
    r.append(action);
    r.append("\" scope key at ");
    r.append(home_url);
    r.append("/dashboard.\n\nIf you already have an API KEY, please export it before running ");
    r.append(action);
    r.append(" command:\nexport API_KEY=<your api key>");
    r
}

/// Publishing and yanking need an API key: the key, or guidance on where to
/// get one for `action`.
pub fn require_api_key(action: &str, home_url: &str, api_key: Option<&str>) -> (r: Result<String, String>)
    ensures
        match api_key {
            None => r matches Err(e) && e@ == missing_key_text(action@, home_url@),
            Some(k) => r matches Ok(v) && v@ == k@,
        },
{
    match api_key {
        None => Err(missing_key_message(action, home_url)),
        Some(k) => Ok(String::from_str(k)),
    }
}

/// Publishing needs an API key: without one there is only guidance and no
/// request; with one, the publish call.
pub fn publish(registry_url: &str, home_url: &str, api_key: Option<&str>, tarball: &PackagedTarball) -> (r: Result<RegistryRequest, String>)
    ensures
        match api_key {
            None => r matches Err(e) && e@ == missing_key_text("publish"@, home_url@),
            Some(k) => r matches Ok(q) && {
                &&& q.method == HttpMethod::Post
                &&& q.url@ == publish_url(registry_url@, tarball.name@, tarball.version@)
                &&& q.authorization matches Some(a) && a@ == auth_header(k@)
                &&& q.upload matches Some(u) && u.file_path@ == tarball.tarball_path@
            },
        },
{
    match api_key {
        None => Err(missing_key_message("publish", home_url)),
        Some(k) => Ok(publish_package_api(registry_url, tarball, k)),
    }
}

/// Yanking needs an API key: without one there is only guidance and no
/// request; with one, the yank call.
pub fn yank(registry_url: &str, home_url: &str, package_name: &str, version: &str, api_key: Option<&str>) -> (r: Result<RegistryRequest, String>)
    ensures
        match api_key {
            None => r matches Err(e) && e@ == missing_key_text("yank"@, home_url@),
            Some(k) => r matches Ok(q) && {
                &&& q.method == HttpMethod::Put
                &&& q.url@ == yank_url(registry_url@, package_name@, version@)
                &&& q.authorization matches Some(a) && a@ == auth_header(k@)
            },
        },
{
    match api_key {
        None => Err(missing_key_message("yank", home_url)),
        Some(k) => Ok(yank_package_api(registry_url, package_name, version, k)),
    }
}

pub open spec fn upload_failure(name: Seq<char>, version: Seq<char>) -> Seq<char> {
    "Failed to upload package: "@ + name + " "@ + version
}

pub open spec fn publish_result_of(
    name: Seq<char>,
    version: Seq<char>,
    home_url: Seq<char>,
    status: u16,
    message: Option<Seq<char>>,
) -> Result<Seq<char>, Seq<char>> {
    if is_success(status) {
        Ok(
            "Successfully published package: "@ + name + " "@ + version
                + " to noir-libs registry.\nExplore your package at: "@ + home_url + "/packages/"@
                + name + "/"@ + version,
        )
    } else if is_client_error(status) {
        Err(upload_failure(name, version) + ". Error message: "@ + or_unknown(message))
    } else {
        Err(upload_failure(name, version) + ". Server status: "@ + decimal(status as nat))
    }
}

fn failure_prefix(lead: &str, name: &str, version: &str) -> (r: String)
    ensures
        r@ == lead@ + name@ + " "@ + version@,
{
    let mut r = String::from_str(lead);
    r.append(name);
    r.append(" ");
    r.append(version);
    r
}

/// What a publish reply means, given its status and `message` field.
pub fn publish_outcome(name: &str, version: &str, home_url: &str, status: u16, message: Option<String>) -> (r: Result<String, String>)
    ensures
        match r {
            Ok(m) => publish_result_of(name@, version@, home_url@, status, opt_view(message))
                == Ok::<Seq<char>, Seq<char>>(m@),
            Err(e) => publish_result_of(name@, version@, home_url@, status, opt_view(message))
                == Err::<Seq<char>, Seq<char>>(e@),
        },
{
    if 200 <= status && status < 300 {
        let mut m = failure_prefix("Successfully published package: ", name, version);
        m.append(" to noir-libs registry.\nExplore your package at: ");
        m.append(home_url);
        m.append("/packages/");
        m.append(name);
        m.append("/");
        m.append(version);
        Ok(m)
    } else if 400 <= status && status < 500 {
        let mut e = failure_prefix("Failed to upload package: ", name, version);
        e.append(". Error message: ");
        let text = error_message(message);
        e.append(text.as_str());
        Err(e)
    } else {
        let mut e = failure_prefix("Failed to upload package: ", name, version);
        e.append(". Server status: ");
        let code = status_text(status);
        e.append(code.as_str());
        Err(e)
    }
}

/// What a publish reply means (see `publish_outcome`), the `message` field
/// read from the JSON body; a transport failure is reported with its cause.
pub fn publish_result(tarball: &PackagedTarball, home_url: &str, reply: &Reply) -> (r: Result<String, String>)
    ensures
        match *reply {
            Reply::Unreachable { cause } => r matches Err(e) && e@ == upload_failure(
                tarball.name@,
                tarball.version@,
            ) + ". Error: "@ + cause@,
            Reply::Received { status, body } => match r {
                Ok(m) => publish_result_of(
                    tarball.name@,
                    tarball.version@,
                    home_url@,
                    status,
                    json_string_member(body@, "message"@),
                ) == Ok::<Seq<char>, Seq<char>>(m@),
                Err(e) => publish_result_of(
                    tarball.name@,
                    tarball.version@,
                    home_url@,
                    status,
                    json_string_member(body@, "message"@),
                ) == Err::<Seq<char>, Seq<char>>(e@),
            },
        },
{
    match reply {
        Reply::Unreachable { cause } => {
            let mut e = failure_prefix("Failed to upload package: ", tarball.name.as_str(), tarball.version.as_str());
            e.append(". Error: ");
            e.append(cause.as_str());
            Err(e)
        },
        Reply::Received { status, body } => {
            let message = json_member(body.as_str(), "message");
            publish_outcome(tarball.name.as_str(), tarball.version.as_str(), home_url, *status, message)
        },
    }
}

pub open spec fn yank_failure(name: Seq<char>, version: Seq<char>) -> Seq<char> {
    "Failed to yank a package: "@ + name + " "@ + version
}

pub open spec fn yank_result_of(name: Seq<char>, version: Seq<char>, status: u16, message: Option<Seq<char>>) -> Result<(), Seq<char>> {
    if is_success(status) {
        Ok(())
    } else if is_client_error(status) {
        Err(yank_failure(name, version) + ". Error message: "@ + or_unknown(message))
    } else {
        Err(yank_failure(name, version) + ". Server status: "@ + decimal(status as nat))
    }
}

/// What a yank reply means, given its status and `message` field.
pub fn yank_outcome(name: &str, version: &str, status: u16, message: Option<String>) -> (r: Result<(), String>)
    ensures
        match r {
            Ok(()) => yank_result_of(name@, version@, status, opt_view(message)) == Ok::<(), Seq<char>>(()),
            Err(e) => yank_result_of(name@, version@, status, opt_view(message)) == Err::<(), Seq<char>>(e@),
        },
{
    if 200 <= status && status < 300 {
        Ok(())
    } else if 400 <= status && status < 500 {
        let mut e = failure_prefix("Failed to yank a package: ", name, version);
        e.append(". Error message: ");
        let text = error_message(message);
        e.append(text.as_str());
        Err(e)
    } else {
        let mut e = failure_prefix("Failed to yank a package: ", name, version);
        e.append(". Server status: ");
        let code = status_text(status);
        e.append(code.as_str());
        Err(e)
    }
}

/// What a yank reply means (see `yank_outcome`), the `message` field read
/// from the JSON body; a transport failure is reported with its cause.
pub fn yank_result(name: &str, version: &str, reply: &Reply) -> (r: Result<(), String>)
    ensures
        match *reply {
            Reply::Unreachable { cause } => r matches Err(e) && e@ == yank_failure(name@, version@)
                + ". Error: "@ + cause@,
            Reply::Received { status, body } => match r {
                Ok(()) => yank_result_of(name@, version@, status, json_string_member(body@, "message"@))
                    == Ok::<(), Seq<char>>(()),
                Err(e) => yank_result_of(name@, version@, status, json_string_member(body@, "message"@))
                    == Err::<(), Seq<char>>(e@),
            },
        },
{
    match reply {
        Reply::Unreachable { cause } => {
            let mut e = failure_prefix("Failed to yank a package: ", name, version);
            e.append(". Error: ");
            e.append(cause.as_str());
            Err(e)
        },
        Reply::Received { status, body } => {
            let message = json_member(body.as_str(), "message");
            yank_outcome(name, version, *status, message)
        },
    }
}

} // verus!

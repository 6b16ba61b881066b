use vstd::prelude::*;
use vstd::string::*;

verus! {

/// What the server answers when asked for its backups: the archives it holds,
/// in the order the server chose, and the names of its templates.
#[derive(Debug, Clone, PartialEq, Eq)]
pub struct AllBackups {
    pub backups: Vec<Backup>,
    pub templates: Vec<String>,
}

/// One archive on the server. `date` is the creation time as the server wrote
/// it; `size` is for people to read.
#[derive(Debug, Clone, PartialEq, Eq)]
pub struct Backup {
    pub name: String,
    pub date: String,
    pub size: String,
}

/// The server's answer to a request that creates or deletes a backup.
/// `error` set does not by itself fail the request.
#[derive(Debug, Clone, PartialEq, Eq)]
pub struct SuccessResponse {
    pub message: String,
    pub error: bool,
}

/// The token that authorises one download of one archive.
#[derive(Debug, Clone, PartialEq, Eq)]
pub struct FileTokenResponse {
    pub file_token: String,
}

/// What the server sends in place of an archive when it refuses a download.
#[derive(Debug, Clone, PartialEq, Eq)]
pub struct HTTPValidationError {
    pub detail: Vec<ValidationError>,
}

/// One violation: where in the request it is, what is wrong, and of what kind.
#[derive(Debug, Clone, PartialEq, Eq)]
pub struct ValidationError {
    pub loc: Vec<String>,
    pub msg: String,
    pub kind: String,
}

/// Whether an HTTP status code reports success: the codes from 200 to 299.
pub open spec fn status_is_success(status: u16) -> bool {
    200 <= status < 300
}

/// Tells whether `status` is one of the success codes.
pub fn is_success(status: u16) -> (ok: bool)
    ensures
        ok == status_is_success(status),
{
    200 <= status && status < 300
}

/// Why a run, or one step of it, failed.
#[derive(Debug, Clone, PartialEq, Eq)]
pub enum BackupError {
    /// A request got no answer (`status` is `None`) or an answer outside the
    /// success codes.
    Transport { status: Option<u16> },
    /// An answer did not have the shape that was expected of it.
    Decode,
    /// The server refused a download and said why.
    Validation(HTTPValidationError),
    /// The server holds no backup at all.
    EmptyCatalog,
    /// The local directory could not be read or written.
    Filesystem,
    /// The credential or the language cannot be sent as a header.
    InvalidHeader,
    /// An event arrived that answers no action the run had asked for.
    UnexpectedEvent,
}

/// The request methods the server's backup interface uses.
#[derive(Debug, Clone, Copy, PartialEq, Eq, Structural)]
pub enum Method {
    Get,
    Post,
    Delete,
}

/// A request to send: where, how, with which of the two headers
/// (`Accept-Language`, `Authorization`), and with which value for the query
/// parameter `token`.
#[derive(Debug, Clone, PartialEq, Eq)]
pub struct HttpRequest {
    pub method: Method,
    pub url: String,
    pub accept_language: Option<String>,
    pub authorization: Option<String>,
    pub token: Option<String>,
}

/// A request, with its texts as sequences of characters.
#[verifier::ext_equal]
pub struct HttpRequestView {
    pub method: Method,
    pub url: Seq<char>,
    pub accept_language: Option<Seq<char>>,
    pub authorization: Option<Seq<char>>,
    pub token: Option<Seq<char>>,
}

/// The characters of an optional text.
pub open spec fn text_of(text: Option<String>) -> Option<Seq<char>> {
    match text {
        Some(t) => Some(t@),
        None => None,
    }
}

impl View for HttpRequest {
    type V = HttpRequestView;

    open spec fn view(&self) -> HttpRequestView {
        HttpRequestView {
            method: self.method,
            url: self.url@,
            accept_language: text_of(self.accept_language),
            authorization: text_of(self.authorization),
            token: text_of(self.token),
        }
    }
}

/// Whether a character may stand in a header value: a tab, or anything from
/// the space upwards but the delete character.
pub open spec fn header_char_ok(c: char) -> bool {
    c == '\t' || (' ' <= c && c != '\u{7f}')
}

/// Whether a text may be sent as a header value.
pub open spec fn header_text_ok(text: Seq<char>) -> bool {
    forall|i: int| 0 <= i < text.len() ==> header_char_ok(#[trigger] text[i])
}

#[verifier::external_type_specification]
#[verifier::external_body]
pub struct ExInvalidHeaderValue(reqwest::header::InvalidHeaderValue);

/// Asks `reqwest::header::HeaderValue::from_str` whether `text` can be a
/// header value. That function accepts a text exactly when each of its bytes
/// is a tab or at least 32 and not 127; a character beyond ASCII is encoded
/// in bytes of 128 and more, so the rule reads the same on characters.
#[verifier::external_body]
fn check_header_value(text: &str) -> (checked: Result<(), reqwest::header::InvalidHeaderValue>)
    ensures
        checked is Ok <==> header_text_ok(text@),
{
    match reqwest::header::HeaderValue::from_str(text) {
        Ok(_) => Ok(()),
        Err(refusal) => Err(refusal),
    }
}

/// The value of the `Authorization` header for a credential.
pub open spec fn bearer(key: Seq<char>) -> Seq<char> {
    "Bearer "@ + key
}

/// Whether a credential and a language can both be sent as headers.
pub open spec fn headers_ok(key: Seq<char>, language: Option<Seq<char>>) -> bool {
    &&& language matches Some(l) ==> header_text_ok(l)
    &&& header_text_ok(bearer(key))
}

/// The address of the server's collection of backups.
pub open spec fn collection_url(base: Seq<char>) -> Seq<char> {
    base + "/api/admin/backups"@
}

/// The address of one backup on the server.
pub open spec fn backup_url(base: Seq<char>, name: Seq<char>) -> Seq<char> {
    base + "/api/admin/backups/"@ + name
}

/// The address from which an archive is downloaded.
pub open spec fn download_url(base: Seq<char>) -> Seq<char> {
    base + "/api/utils/download"@
}

/// An authenticated request: both headers, no query.
pub open spec fn authorized_request(
    method: Method,
    url: Seq<char>,
    key: Seq<char>,
    language: Option<Seq<char>>,
) -> HttpRequestView {
    HttpRequestView {
        method,
        url,
        accept_language: language,
        authorization: Some(bearer(key)),
        token: None,
    }
}

/// Whether `built` is what building an authenticated request comes to: the
/// request itself where the credential and the language can be sent as
/// headers, and `InvalidHeader` where one of them cannot.
pub open spec fn is_built(
    built: Result<HttpRequest, BackupError>,
    method: Method,
    url: Seq<char>,
    key: Seq<char>,
    language: Option<Seq<char>>,
) -> bool {
    match built {
        Ok(request) => {
            &&& headers_ok(key, language)
            &&& request@ == authorized_request(method, url, key, language)
        },
        Err(error) => {
            &&& !headers_ok(key, language)
            &&& error == BackupError::InvalidHeader
        },
    }
}

/// The request that downloads an archive: no header, the token in the query.
pub open spec fn download_request(base: Seq<char>, token: Seq<char>) -> HttpRequestView {
    HttpRequestView {
        method: Method::Get,
        url: download_url(base),
        accept_language: None,
        authorization: None,
        token: Some(token),
    }
}

/// The client's side of the server's backup interface: it knows the server's
/// address and the credential, and says which request each operation sends.
/// It keeps nothing between calls.
pub struct BackupService {
    base_url: String,
    token: String,
}

impl BackupService {
    /// The server's address, to which each operation's path is appended.
    pub closed spec fn base_url(&self) -> Seq<char> {
        self.base_url@
    }

    /// The credential sent with every authenticated request.
    pub closed spec fn api_key(&self) -> Seq<char> {
        self.token@
    }

    pub fn new(base_url: String, token: String) -> (service: Self)
        ensures
            service.base_url() == base_url@,
            service.api_key() == token@,
    {
        Self { base_url, token }
    }

    /// Builds an authenticated request, or refuses where a header value
    /// cannot be sent.
    fn authorized(
        &self,
        method: Method,
        url: String,
        accept_language: Option<String>,
    ) -> (built: Result<HttpRequest, BackupError>)
        ensures
            is_built(
                built,
                method,
                url@,
                self.api_key(),
                text_of(accept_language),
            ),
    {
        if let Some(language) = &accept_language {
            match check_header_value(language.as_str()) {
                Ok(_) => {},
                Err(_) => {
                    return Err(BackupError::InvalidHeader);
                },
            }
        }
        let mut authorization = String::from_str("Bearer ");
        authorization.append(self.token.as_str());
        match check_header_value(authorization.as_str()) {
            Ok(_) => {},
            Err(_) => {
                return Err(BackupError::InvalidHeader);
            },
        }
        Ok(
            HttpRequest {
                method,
                url,
                accept_language,
                authorization: Some(authorization),
                token: None,
            },
        )
    }

    /// The request that lists the server's backups: `GET` on the collection.
    pub fn get_all_backups(
        &self,
        accept_language: Option<String>,
    ) -> (built: Result<HttpRequest, BackupError>)
        ensures
            is_built(
                built,
                Method::Get,
                collection_url(self.base_url()),
                self.api_key(),
                text_of(accept_language),
            ),
    {
        let mut url = String::from_str(self.base_url.as_str());
        url.append("/api/admin/backups");
        self.authorized(Method::Get, url, accept_language)
    }

    /// The request that has the server create a backup: `POST` on the
    /// collection.
    pub fn create_backup(
        &self,
        accept_language: Option<String>,
    ) -> (built: Result<HttpRequest, BackupError>)
        ensures
            is_built(
                built,
                Method::Post,
                collection_url(self.base_url()),
                self.api_key(),
                text_of(accept_language),
            ),
    {
        let mut url = String::from_str(self.base_url.as_str());
        url.append("/api/admin/backups");
        self.authorized(Method::Post, url, accept_language)
    }

    /// The request that asks for the download token of the backup
    /// `file_name`: `GET` on that backup.
    pub fn get_backup(
        &self,
        file_name: &String,
        accept_language: Option<String>,
    ) -> (built: Result<HttpRequest, BackupError>)
        ensures
            is_built(
                built,
                Method::Get,
                backup_url(self.base_url(), file_name@),
                self.api_key(),
                text_of(accept_language),
            ),
    {
        let mut url = String::from_str(self.base_url.as_str());
        url.append("/api/admin/backups/");
        url.append(file_name.as_str());
        self.authorized(Method::Get, url, accept_language)
    }

    /// The request that deletes the backup `file_name`: `DELETE` on that
    /// backup.
    pub fn delete_backup(
        &self,
        file_name: String,
        accept_language: Option<String>,
    ) -> (built: Result<HttpRequest, BackupError>)
        ensures
            is_built(
                built,
                Method::Delete,
                backup_url(self.base_url(), file_name@),
                self.api_key(),
                text_of(accept_language),
            ),
    {
        let mut url = String::from_str(self.base_url.as_str());
        url.append("/api/admin/backups/");
        url.append(file_name.as_str());
        self.authorized(Method::Delete, url, accept_language)
    }

    /// The request that downloads the archive a token stands for: `GET` on
    /// the download address, the token as the query parameter `token`, and no
    /// credential.
    pub fn download_backup(&self, file_token: FileTokenResponse) -> (request: HttpRequest)
        ensures
            request@ == download_request(self.base_url(), file_token.file_token@),
    {
        let mut url = String::from_str(self.base_url.as_str());
        url.append("/api/utils/download");
        HttpRequest {
            method: Method::Get,
            url,
            accept_language: None,
            authorization: None,
            token: Some(file_token.file_token),
        }
    }
}

} // verus!

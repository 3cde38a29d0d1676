//! The DeepL client's decisions: which request to send for an operation,
//! how a response status is classified, and what is taken from a parsed
//! response. Sending and JSON decoding happen around these functions.

use vstd::prelude::*;

verus! {

/// A language DeepL can translate into.
#[derive(Debug, Clone, PartialEq, Eq)]
pub struct Language {
    pub language: String,
    pub name: String,
    pub supports_formality: bool,
}

/// One translation in DeepL's answer.
#[derive(Debug, PartialEq, Eq)]
pub struct TranslationResponseBody {
    pub detected_source_language: String,
    pub text: String,
}

/// DeepL's answer to a translation request.
#[derive(Debug, PartialEq, Eq)]
pub struct TranslationResponse {
    pub translations: Vec<TranslationResponseBody>,
}

/// A DeepL client, identified by its authentication key.
#[derive(Debug, Clone, PartialEq, Eq)]
pub struct DeepL {
    pub auth_key: String,
}

/// The HTTP methods a request can use.
#[derive(Debug, Clone, Copy, PartialEq, Eq)]
pub enum HttpMethod {
    Get,
    Post,
    Put,
    Patch,
    Delete,
    Head,
    Options,
    Connect,
    Trace,
}

/// The parameters of a request: none, sent in the query string, or sent as
/// a url-encoded form body.
#[derive(Debug, PartialEq, Eq)]
pub enum RequestParams {
    NoParams,
    Query(Vec<(String, String)>),
    Form(Vec<(String, String)>),
}

/// A request ready to be sent.
#[derive(Debug, PartialEq, Eq)]
pub struct ApiRequest {
    pub method: HttpMethod,
    pub url: String,
    pub authorization: String,
    pub params: RequestParams,
}

/// How the client treats a response status before looking at the body.
#[derive(Debug, Clone, Copy, PartialEq, Eq)]
pub enum StatusClass {
    Success,
    Unauthorized,
    Forbidden,
    NotFound,
    Other,
}

/// The endpoint prefix of DeepL's free API.
pub open spec fn api_base_url() -> Seq<char> {
    "https://api-free.deepl.com/v2"@
}

/// Methods that may carry parameters.
pub open spec fn takes_params(method: HttpMethod) -> bool {
    method is Get || method is Patch || method is Post || method is Put
}

/// Where parameters go for `method`: the query string for GET, the form
/// body otherwise.
pub open spec fn placed_params(method: HttpMethod, params: Option<Vec<(String, String)>>) -> RequestParams {
    match params {
        None => RequestParams::NoParams,
        Some(p) => if method is Get {
            RequestParams::Query(p)
        } else {
            RequestParams::Form(p)
        },
    }
}

/// Law: the parameters of a GET always go into the query string and those of
/// a POST, PUT or PATCH always into a form body, whatever they hold; a
/// request without parameters carries none.
pub proof fn lemma_params_placement(method: HttpMethod, p: Vec<(String, String)>)
    ensures
        method is Get ==> placed_params(method, Some(p)) == RequestParams::Query(p),
        method is Post || method is Put || method is Patch ==> placed_params(method, Some(p))
            == RequestParams::Form(p),
        placed_params(method, None) == RequestParams::NoParams,
{
}

impl DeepL {
    /// A client using `auth_key`.
    pub fn new(auth_key: String) -> (r: DeepL)
        ensures
            r.auth_key == auth_key,
    {
        DeepL { auth_key: auth_key }
    }

    /// Replaces the client's key.
    pub fn set(&mut self, new_auth_key: String)
        ensures
            final(self).auth_key == new_auth_key,
    {
        self.auth_key = new_auth_key;
    }

    /// The request for `endpoint` with the client's authorization header;
    /// parameters go into the query for GET and into a form body for PATCH,
    /// POST and PUT. Other methods take no parameters.
    pub fn build_request(
        &self,
        method: HttpMethod,
        endpoint: &str,
        params: Option<Vec<(String, String)>>,
    ) -> (r: ApiRequest)
        requires
            params is Some ==> takes_params(method),
        ensures
            r.method == method,
            r.url@ == api_base_url() + endpoint@,
            r.authorization@ == "DeepL-Auth-Key "@ + self.auth_key@,
            r.params == placed_params(method, params),
            params is Some && method is Get ==> r.params == RequestParams::Query(params->0),
            params is Some && (method is Post || method is Put || method is Patch) ==> r.params
                == RequestParams::Form(params->0),
            params is None ==> r.params == RequestParams::NoParams,
    {
        let mut url = String::from_str("https://api-free.deepl.com/v2");
        url.append(endpoint);
        let mut authorization = String::from_str("DeepL-Auth-Key ");
        authorization.append(self.auth_key.as_str());
        let params = match params {
            None => RequestParams::NoParams,
            Some(p) => match method {
                HttpMethod::Get => RequestParams::Query(p),
                _ => RequestParams::Form(p),
            },
        };
        ApiRequest { method, url, authorization, params }
    }

    /// The request translating `text` into `target_lang`: a POST to
    /// `/translate` with the form fields `target_lang` and `text`.
    pub fn translate_request(&self, text: &str, target_lang: &str) -> (r: ApiRequest)
        ensures
            r.method == HttpMethod::Post,
            r.url@ == api_base_url() + "/translate"@,
            r.authorization@ == "DeepL-Auth-Key "@ + self.auth_key@,
            r.params matches RequestParams::Form(p) && p@.len() == 2 && p@[0].0@ == "target_lang"@
                && p@[0].1@ == target_lang@ && p@[1].0@ == "text"@ && p@[1].1@ == text@,
    {
        let mut query: Vec<(String, String)> = Vec::new();
        query.push((String::from_str("target_lang"), String::from_str(target_lang)));
        query.push((String::from_str("text"), String::from_str(text)));
        self.build_request(HttpMethod::Post, "/translate", Some(query))
    }

    /// The request listing the target languages: a GET of
    /// `/languages?type=target` without parameters.
    pub fn supported_request(&self) -> (r: ApiRequest)
        ensures
            r.method == HttpMethod::Get,
            r.url@ == api_base_url() + "/languages?type=target"@,
            r.authorization@ == "DeepL-Auth-Key "@ + self.auth_key@,
            r.params == RequestParams::NoParams,
    {
        self.build_request(HttpMethod::Get, "/languages?type=target", None)
    }
}

/// How a response status is treated: 2xx is a success; 401, 403 and 404
/// are turned into errors; anything else is passed on.
pub fn classify_status(status: u16) -> (r: StatusClass)
    ensures
        r == (if 200 <= status <= 299 {
            StatusClass::Success
        } else if status == 401 {
            StatusClass::Unauthorized
        } else if status == 403 {
            StatusClass::Forbidden
        } else if status == 404 {
            StatusClass::NotFound
        } else {
            StatusClass::Other
        }),
{
    if 200 <= status && status <= 299 {
        StatusClass::Success
    } else if status == 401 {
        StatusClass::Unauthorized
    } else if status == 403 {
        StatusClass::Forbidden
    } else if status == 404 {
        StatusClass::NotFound
    } else {
        StatusClass::Other
    }
}

impl TranslationResponse {
    /// The text of the first translation.
    pub fn first_translation(&self) -> (r: String)
        requires
            self.translations.len() > 0,
        ensures
            r@ == self.translations[0].text@,
    {
        self.translations[0].text.clone()
    }
}

/// The text shown for a translation attempt: the translation, or
/// "Could not translate" when it failed.
pub fn translation_outcome_text(translated: Option<String>) -> (r: String)
    ensures
        match translated {
            Some(t) => r == t,
            None => r@ == "Could not translate"@,
        },
{
    match translated {
        Some(t) => t,
        None => String::from_str("Could not translate"),
    }
}

} // verus!

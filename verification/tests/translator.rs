use live_ocr_translator::translator::{
    classify_status, translation_outcome_text, ApiRequest, DeepL, HttpMethod, RequestParams,
    StatusClass, TranslationResponse, TranslationResponseBody,
};
use live_ocr_translator::translator_error::TranslatorError;

fn pair(a: &str, b: &str) -> (String, String) {
    (String::from(a), String::from(b))
}

#[test]
fn new_and_set_keep_the_key() {
    let mut deepl = DeepL::new(String::from("abc:fx"));
    assert_eq!(deepl.auth_key, "abc:fx");
    deepl.set(String::from("xyz:fx"));
    assert_eq!(deepl.auth_key, "xyz:fx");
    let request = deepl.supported_request();
    assert_eq!(request.authorization, "DeepL-Auth-Key xyz:fx");
}

#[test]
fn translate_request_is_a_form_post() {
    let deepl = DeepL::new(String::from("key"));
    let request = deepl.translate_request("This is a basic sentence I want to translate.", "DE");
    assert_eq!(
        request,
        ApiRequest {
            method: HttpMethod::Post,
            url: String::from("https://api-free.deepl.com/v2/translate"),
            authorization: String::from("DeepL-Auth-Key key"),
            params: RequestParams::Form(vec![
                pair("target_lang", "DE"),
                pair("text", "This is a basic sentence I want to translate."),
            ]),
        }
    );
}

#[test]
fn supported_request_is_a_plain_get() {
    let deepl = DeepL::new(String::from("k"));
    let request = deepl.supported_request();
    assert_eq!(request.method, HttpMethod::Get);
    assert_eq!(request.url, "https://api-free.deepl.com/v2/languages?type=target");
    assert_eq!(request.params, RequestParams::NoParams);
}

#[test]
fn build_request_places_parameters_by_method() {
    let deepl = DeepL::new(String::from("k"));
    let get = deepl.build_request(HttpMethod::Get, "/usage", Some(vec![pair("a", "1")]));
    assert_eq!(get.params, RequestParams::Query(vec![pair("a", "1")]));
    let put = deepl.build_request(HttpMethod::Put, "/glossaries", Some(vec![pair("b", "2")]));
    assert_eq!(put.params, RequestParams::Form(vec![pair("b", "2")]));
    let patch = deepl.build_request(HttpMethod::Patch, "/x", Some(vec![]));
    assert_eq!(patch.params, RequestParams::Form(vec![]));
    let delete = deepl.build_request(HttpMethod::Delete, "/glossaries/1", None);
    assert_eq!(delete.params, RequestParams::NoParams);
    assert_eq!(delete.url, "https://api-free.deepl.com/v2/glossaries/1");
}

#[test]
fn status_classes() {
    assert_eq!(classify_status(200), StatusClass::Success);
    assert_eq!(classify_status(299), StatusClass::Success);
    assert_eq!(classify_status(401), StatusClass::Unauthorized);
    assert_eq!(classify_status(403), StatusClass::Forbidden);
    assert_eq!(classify_status(404), StatusClass::NotFound);
    assert_eq!(classify_status(456), StatusClass::Other);
    assert_eq!(classify_status(500), StatusClass::Other);
    assert_eq!(classify_status(302), StatusClass::Other);
    assert_eq!(classify_status(199), StatusClass::Other);
}

#[test]
fn first_translation_is_taken() {
    let response = TranslationResponse {
        translations: vec![
            TranslationResponseBody {
                detected_source_language: String::from("EN"),
                text: String::from("Dies ist ein einfacher Satz, den ich übersetzen möchte."),
            },
            TranslationResponseBody {
                detected_source_language: String::from("EN"),
                text: String::from("second"),
            },
        ],
    };
    assert_eq!(
        response.first_translation(),
        "Dies ist ein einfacher Satz, den ich übersetzen möchte."
    );
}

#[test]
fn translation_outcome_text_falls_back() {
    assert_eq!(translation_outcome_text(Some(String::from("Hallo"))), "Hallo");
    assert_eq!(translation_outcome_text(None), "Could not translate");
}

#[test]
fn translator_error_messages() {
    assert_eq!(
        TranslatorError::AuthorizationErr.message(),
        "Authorization failed, API key is likely wrong"
    );
    assert_eq!(
        TranslatorError::ServerErr(String::from("timeout")).message(),
        "An error occured when communicating with the DeepL server\n    Error: timeout"
    );
    assert_eq!(
        TranslatorError::DeserializationErr.message(),
        "An error occured when deserializing the server response"
    );
    assert_eq!(TranslatorError::NotFoundErr.message(), "The requested resource was not found");
}

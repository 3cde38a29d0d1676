use live_ocr_translator::languages::{distinct_strings, language_code, target_language_codes};
use live_ocr_translator::translator::Language;

fn lang(code: &str, name: &str) -> Language {
    Language { language: String::from(code), name: String::from(name), supports_formality: false }
}

#[test]
fn language_code_takes_two_bytes_lowercased() {
    assert_eq!(language_code("EN-GB"), "en");
    assert_eq!(language_code("DE"), "de");
    assert_eq!(language_code("PT-BR"), "pt");
    assert_eq!(language_code("ÄB"), "ä");
}

#[test]
fn target_codes_are_unique() {
    let langs = vec![
        lang("EN-GB", "English (British)"),
        lang("EN-US", "English (American)"),
        lang("DE", "German"),
        lang("PT-PT", "Portuguese"),
        lang("PT-BR", "Portuguese (Brazilian)"),
    ];
    assert_eq!(
        target_language_codes(&langs),
        vec![String::from("en"), String::from("de"), String::from("pt")]
    );
}

#[test]
fn distinct_strings_of_empty_and_unique_lists() {
    assert_eq!(distinct_strings(&vec![]), Vec::<String>::new());
    let unique = vec![String::from("a"), String::from("b")];
    assert_eq!(distinct_strings(&unique), unique);
    let repeated = vec![String::from("x"), String::from("x"), String::from("x")];
    assert_eq!(distinct_strings(&repeated), vec![String::from("x")]);
}

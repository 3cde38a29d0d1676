use live_ocr_translator::ocr::{err_to_string, ocr_outcome_text, run_ocr, OCRError, TessErrWrapper};
use live_ocr_translator::languages::distinct_strings;

#[test]
fn basic_ocr_example() {
    let raw = String::from("Dies ist ein\neinfacher  Satz.\n");
    assert_eq!(run_ocr(Ok(raw)), Ok(String::from("Dies ist ein einfacher Satz.")));
}

#[test]
fn get_tesseract_supported() {
    let listed = vec![
        String::from("deu"),
        String::from("eng"),
        String::from("osd"),
        String::from("eng"),
    ];
    let langs = distinct_strings(&listed);
    assert_eq!(langs, vec![String::from("deu"), String::from("eng"), String::from("osd")]);
}

#[test]
fn advanced_ocr_example() {
    let raw = String::from("\t\"Quoted\"  text\r\nacross\u{3000}lines ");
    assert_eq!(
        run_ocr(Ok(raw)),
        Ok(String::from("\\\"Quoted\\\" text across lines"))
    );
    let failed = OCRError::OCRTessErr(TessErrWrapper { error: String::from("TesseractNotFound") });
    assert_eq!(
        run_ocr(Err(OCRError::OCRioErr(String::from("disk full")))),
        Err(OCRError::OCRioErr(String::from("disk full")))
    );
    assert_eq!(run_ocr(Err(failed)).is_err(), true);
}

#[test]
fn ocr_error_messages() {
    let tess = OCRError::OCRTessErr(TessErrWrapper { error: String::from("boom") });
    assert_eq!(tess.message(), "Tesseract failed to extract text from the image");
    assert_eq!(
        err_to_string(&tess),
        "Error: Tesseract failed to extract text from the image\n    Caused by: boom"
    );
    let io = OCRError::OCRioErr(String::from("no such file"));
    assert_eq!(io.message(), "There was a problem saving the image to your disk");
    assert_eq!(
        err_to_string(&io),
        "Error: There was a problem saving the image to your disk\n    Caused by: no such file"
    );
}

#[test]
fn ocr_outcome_text_shows_text_or_report() {
    assert_eq!(ocr_outcome_text(Ok(String::from("hallo"))), "hallo");
    let io = OCRError::OCRioErr(String::from("denied"));
    assert_eq!(
        ocr_outcome_text(Err(io)),
        "Error: There was a problem saving the image to your disk\n    Caused by: denied"
    );
}

# live_ocr_translator

A desktop tool that recognises text in a region of the screen with tesseract
and translates it with DeepL.

- `src/` is the verified library (Verus): cleaning of recognised text
  (`text`), OCR outcomes and error reports (`ocr`), language codes for the
  menus (`languages`), DeepL requests and response decisions (`translator`,
  `translator_error`), capture-region arithmetic and row packing
  (`capture`, `capture_error`).
- `app/` is the program around it: the GTK interface, HTTP calls, tesseract
  runs, the configuration file and the Windows capture code.
- `tests/` exercises the library on concrete inputs.

//! Small string primitives of std that vstd leaves unspecified.

use vstd::prelude::*;

verus! {

/// `String::push`: std documents that it appends the given `char` to the
/// end of the string. The contract says exactly that.
#[verifier::external_body]
pub(crate) fn push_char(s: &mut String, c: char)
    ensures
        final(s)@ == old(s)@.push(c),
{
    s.push(c);
}

} // verus!

verus! {

/// The report shape shared by the error printers: `Error: <message>`, then
/// either `\n    Caused by: <cause>` or a bare newline.
pub open spec fn error_report(message: Seq<char>, cause: Option<Seq<char>>) -> Seq<char> {
    match cause {
        Some(c) => "Error: "@ + message + "\n    Caused by: "@ + c,
        None => "Error: "@ + message + "\n"@,
    }
}

/// Builds `error_report(message, cause)`.
pub fn format_error_report(message: &str, cause: Option<&str>) -> (r: String)
    ensures
        r@ == error_report(
            message@,
            match cause {
                Some(c) => Some(c@),
                None => None,
            },
        ),
{
    let mut r = String::from_str("Error: ");
    r.append(message);
    match cause {
        Some(c) => {
            r.append("\n    Caused by: ");
            r.append(c);
        },
        None => {
            r.append("\n");
        },
    }
    r
}

} // verus!

//! Events as lines of raw XML.

use crate::formatting::{decode_utf16, utf16_text};
use crate::rendering::RenderError;
use crate::text::{from_chars, to_chars};
use vstd::prelude::*;
use vstd::string::*;

verus! {

/// The line that decoded text makes: the text and a line feed, or an
/// error where there is no text.
pub open spec fn line_of_text(text: Option<Seq<char>>) -> Result<Seq<char>, RenderError> {
    match text {
        Some(s) => Ok(s + seq!['\n']),
        None => Err(RenderError::Encoding),
    }
}

/// The line that the raw rendering of an event makes: its text and a
/// line feed, where its units are valid text.
pub open spec fn xml_line(units: Seq<u16>) -> Result<Seq<char>, RenderError> {
    line_of_text(utf16_text(units))
}

/// Ends decoded text with a line feed; text that could not be decoded is
/// an error.
pub fn line_or_encoding_error(text: Option<String>) -> (r: Result<String, RenderError>)
    ensures
        r is Ok <==> text is Some,
        r matches Ok(line) ==> text matches Some(s) && line@ == s@ + seq!['\n'],
        r matches Err(e) ==> e == RenderError::Encoding,
{
    match text {
        Some(xml) => {
            let mut line = to_chars(xml.as_str());
            line.push('\n');
            assert(line@ == xml@ + seq!['\n']);
            Ok(from_chars(&line))
        },
        None => Err(RenderError::Encoding),
    }
}

/// Renders an event as one line of XML, from the UTF-16 units of its raw
/// rendering.
pub fn render_event_xml(units: &Vec<u16>) -> (r: Result<String, RenderError>)
    ensures
        r is Ok <==> xml_line(units@) is Ok,
        r matches Ok(s) ==> xml_line(units@) == Ok::<Seq<char>, RenderError>(s@),
        r matches Err(e) ==> xml_line(units@) == Err::<Seq<char>, RenderError>(e),
{
    line_or_encoding_error(decode_utf16(units))
}

} // verus!

//! The one-paragraph summary of a feed entry, taken from its HTML fragment.
use crate::feed::{opt_view, ChangeEntry};
use vstd::prelude::*;

verus! {

/// The string value of the XPath expression `xpath` evaluated on the XML
/// document `xml`, or `None` where `xml` is not well-formed XML or the
/// expression cannot be evaluated.
pub uninterp spec fn xpath_text(xml: Seq<char>, xpath: Seq<char>) -> Option<Seq<char>>;

/// Relies on `sxd_document::parser::parse` to read `xml`, and on
/// `sxd_xpath::evaluate_xpath` and `Value::string` to evaluate `xpath` on
/// the document: the text depends on the two arguments alone.
#[verifier::external_body]
fn evaluate_xpath_text(xml: &str, xpath: &str) -> (r: Option<String>)
    ensures
        opt_view(r) == xpath_text(xml@, xpath@),
{
    match sxd_document::parser::parse(xml) {
        Ok(package) => match sxd_xpath::evaluate_xpath(&package.as_document(), xpath) {
            Ok(value) => Some(value.string()),
            Err(_) => None,
        },
        Err(_) => None,
    }
}

/// The paragraphs directly inside the fragment's wrapping `div`.
pub const SUMMARY_XPATH: &'static str = "/*[local-name()='div']/*[local-name()='p']";

/// What stands for an entry without a summary.
pub const NO_SUMMARY: &'static str = "[No summary]";

/// The summary given the raw fragment and what the XPath evaluation gave:
/// the extracted text where it is not empty, else the raw fragment.
pub open spec fn summary_from(raw: Seq<char>, extracted: Option<Seq<char>>) -> Seq<char> {
    match extracted {
        Some(t) => if t.len() > 0 {
            t
        } else {
            raw
        },
        None => raw,
    }
}

/// The summary of an entry whose summary fragment is `summary`.
pub open spec fn summary_of(summary: Option<Seq<char>>) -> Seq<char> {
    match summary {
        Some(raw) => summary_from(raw, xpath_text(raw, SUMMARY_XPATH@)),
        None => NO_SUMMARY@,
    }
}

/// Chooses the summary from the raw fragment and the extracted text.
pub fn summary_from_extraction(raw: &str, extracted: Option<String>) -> (r: String)
    ensures
        r@ == summary_from(raw@, opt_view(extracted)),
{
    match extracted {
        Some(t) => if t.as_str().unicode_len() > 0 {
            t
        } else {
            String::from_str(raw)
        },
        None => String::from_str(raw),
    }
}

/// The summary of a feed entry: the text of the first paragraph of its
/// fragment's wrapping `div`; the raw fragment where that cannot be read or
/// gives no text;
/// a placeholder where the entry has no summary.
pub fn parse_summary(entry: &ChangeEntry) -> (r: String)
    ensures
        r@ == summary_of(opt_view(entry.summary)),
{
    match &entry.summary {
        Some(raw) => summary_from_extraction(raw.as_str(), evaluate_xpath_text(raw.as_str(), SUMMARY_XPATH)),
        None => String::from_str(NO_SUMMARY),
    }
}

} // verus!

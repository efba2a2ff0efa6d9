//! Reading a page body file as Markdown or as Confluence storage XML.
use vstd::prelude::*;
use crate::content::{
    cmark_events, converted_markdown, converted_storage, first_problem, markdown_to_storage,
    storage_to_storage, supported_result, ConvertedContent,
};
use crate::error::{AppError, ErrorCode};
use crate::text::{ascii_lower, concat, has_suffix, ends_with, lower_chars};

verus! {

broadcast use vstd::string::group_string_axioms;

/// How a body file is to be read.
#[derive(Debug, Clone, Copy, PartialEq, Eq, Structural)]
pub enum BodyRepresentation {
    Markdown,
    Storage,
}

/// The last component of a path, as `std::path::Path::file_name` gives it.
pub uninterp spec fn path_file_name(path: Seq<char>) -> Option<Seq<char>>;

/// Calls `Path::new(path).file_name()`. The contract states only that the
/// result is that final component, if any.
#[verifier::external_body]
pub(crate) fn file_name_of(path: &str) -> (r: Option<String>)
    ensures
        match r {
            Some(n) => path_file_name(path@) == Some(n@),
            None => path_file_name(path@) is None,
        },
{
    std::path::Path::new(path).file_name().and_then(|n| n.to_str()).map(|n| n.to_string())
}

/// Storage XML for `.storage.xml`, `.storage` and `.xml` file names (any
/// case); Markdown otherwise, also when the path has no file name.
pub open spec fn inferred_representation(path: Seq<char>) -> BodyRepresentation {
    match path_file_name(path) {
        None => BodyRepresentation::Markdown,
        Some(n) => {
            let lower = ascii_lower(n);
            if has_suffix(lower, ".storage.xml"@) || has_suffix(lower, ".storage"@) || has_suffix(
                lower,
                ".xml"@,
            ) {
                BodyRepresentation::Storage
            } else {
                BodyRepresentation::Markdown
            }
        },
    }
}

/// The representation implied by the body file's name.
pub fn infer_body_representation(body_file: &str) -> (r: BodyRepresentation)
    ensures
        r == inferred_representation(body_file@),
{
    match file_name_of(body_file) {
        None => BodyRepresentation::Markdown,
        Some(name) => {
            let lower = lower_chars(name.as_str());
            if ends_with(lower.as_slice(), ".storage.xml") || ends_with(lower.as_slice(), ".storage")
                || ends_with(lower.as_slice(), ".xml") {
                BodyRepresentation::Storage
            } else {
                BodyRepresentation::Markdown
            }
        },
    }
}

/// The representation used: the requested one, else the inferred one.
pub open spec fn chosen_representation(path: Seq<char>, requested: Option<BodyRepresentation>) -> BodyRepresentation {
    match requested {
        Some(r) => r,
        None => inferred_representation(path),
    }
}

/// `r` is what reading the body file `path` gives when its contents were
/// read as `contents` (or could not be read, with that error text).
pub open spec fn body_read_result(
    path: Seq<char>,
    requested: Option<BodyRepresentation>,
    contents: Result<String, String>,
    r: Result<ConvertedContent, AppError>,
) -> bool {
    match contents {
        Err(m) => r matches Err(e) && e.code == ErrorCode::MarkdownConversionFailed && e.message@
            == "Failed to read body file: "@ + m@,
        Ok(body) => match chosen_representation(path, requested) {
            BodyRepresentation::Storage => r matches Ok(c) && converted_storage(body@, c),
            BodyRepresentation::Markdown => {
                &&& (first_problem(cmark_events(body@, true, true)) is None <==> r is Ok)
                &&& (r matches Ok(c) ==> converted_markdown(body@, c))
                &&& (r matches Err(e) ==> supported_result(cmark_events(body@, true, true), Err(e)))
            },
        },
    }
}

/// Converts the contents of the body file `body_file`, as read, to storage
/// HTML.
pub fn read_body_file(
    body_file: &str,
    body_representation: Option<BodyRepresentation>,
    contents: Result<String, String>,
) -> (r: Result<ConvertedContent, AppError>)
    ensures
        body_read_result(body_file@, body_representation, contents, r),
{
    let body = match contents {
        Err(m) => {
            return Err(
                AppError::new(
                    ErrorCode::MarkdownConversionFailed,
                    concat("Failed to read body file: ", m.as_str()),
                ),
            );
        },
        Ok(b) => b,
    };
    let representation = match body_representation {
        Some(r) => r,
        None => infer_body_representation(body_file),
    };
    match representation {
        BodyRepresentation::Markdown => markdown_to_storage(body.as_str()),
        BodyRepresentation::Storage => storage_to_storage(body.as_str()),
    }
}

} // verus!

use vstd::prelude::*;

use crate::error::InputError;

verus! {

/// Where the proposed schema is read from.
#[derive(Debug)]
pub enum SchemaSource {
    /// A file at the given path.
    File(String),
    /// Standard input, written `-` on the command line.
    Stdin,
}

/// Reads a schema source argument: `-` names standard input, anything else
/// a file path.
pub fn parse_file_descriptor(s: &str) -> (r: SchemaSource)
    ensures
        s@ == seq!['-'] ==> r is Stdin,
        s@ != seq!['-'] ==> r is File && r->File_0@ == s@,
{
    if s.unicode_len() == 1 && s.get_char(0) == '-' {
        assert(s@ =~= seq!['-']);
        SchemaSource::Stdin
    } else {
        SchemaSource::File(s.to_owned())
    }
}

/// What resolving a schema source gives, from what reading it gave: a read
/// failure is passed on, an empty text is refused, any other text is kept
/// exactly.
pub open spec fn schema_text_of(read: Result<String, InputError>) -> Result<String, InputError> {
    match read {
        Err(e) => Err(e),
        Ok(text) => if text@.len() == 0 {
            Err(InputError::Empty)
        } else {
            Ok(text)
        },
    }
}

/// Turns what was read from a schema source into the proposed schema text.
pub fn resolve_schema_text(read: Result<String, InputError>) -> (r: Result<String, InputError>)
    ensures
        r == schema_text_of(read),
{
    match read {
        Err(e) => Err(e),
        Ok(text) => if text.unicode_len() == 0 {
            Err(InputError::Empty)
        } else {
            Ok(text)
        },
    }
}

} // verus!

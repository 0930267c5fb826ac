//! Building strings out of pieces.

use vstd::prelude::*;
use vstd::string::StringExecFns;

verus! {

/// `String::push` appends one character at the end.
pub assume_specification[ String::push ](s: &mut String, c: char)
    ensures
        final(s)@ == old(s)@.push(c),
;

/// How `{:?}` renders a string: quoted, with special characters escaped.
pub uninterp spec fn debug_text(s: Seq<char>) -> Seq<char>;

/// `{:?}` of a string, as the standard library renders it.
///
/// The rendering is a function of the characters alone; it is named
/// [`debug_text`] and nothing else is claimed of it.
#[verifier::external_body]
pub(crate) fn debug_str(s: &str) -> (r: String)
    ensures
        r@ == debug_text(s@),
{
    format!("{:?}", s)
}

/// How `{:?}` renders an error kind: the name of its variant.
pub uninterp spec fn error_kind_text(kind: std::io::ErrorKind) -> Seq<char>;

/// `{:?}` of an error kind, as the standard library renders it.
///
/// The rendering is a function of the kind; it is named [`error_kind_text`]
/// and nothing else is claimed of it.
#[verifier::external_body]
pub(crate) fn debug_error_kind(kind: std::io::ErrorKind) -> (r: String)
    ensures
        r@ == error_kind_text(kind),
{
    format!("{:?}", kind)
}

/// `true` or `false`.
pub open spec fn bool_text(b: bool) -> Seq<char> {
    if b {
        "true"@
    } else {
        "false"@
    }
}

/// Appends `true` or `false` to `s`.
pub fn append_bool(s: &mut String, b: bool)
    ensures
        final(s)@ == old(s)@ + bool_text(b),
{
    if b {
        s.append("true");
    } else {
        s.append("false");
    }
}

} // verus!

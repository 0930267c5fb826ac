//! Chunk identifiers.

use crate::num::format_pad_u64;
use std::ops::Deref;
use vstd::prelude::*;
use vstd::string::StringExecFns;

verus! {

/// ChunkId represents a unique identifier for a chunk based on its global
/// offset in the log.
///
/// Each chunk in the log has a unique position identified by its starting
/// offset. This offset serves as the chunk's identifier and can be used to
/// locate and reference specific chunks within the log.
#[derive(Debug, Clone, Copy, PartialEq, Eq, PartialOrd, Ord, Hash)]
pub struct ChunkId(pub u64);

impl From<u64> for ChunkId {
    fn from(offset: u64) -> (r: Self) {
        ChunkId(offset)
    }
}

impl vstd::std_specs::convert::FromSpecImpl<u64> for ChunkId {
    open spec fn obeys_from_spec() -> bool {
        true
    }

    open spec fn from_spec(offset: u64) -> Self {
        ChunkId(offset)
    }
}

impl Deref for ChunkId {
    type Target = u64;

    fn deref(&self) -> (r: &Self::Target)
        ensures
            *r == self.0,
    {
        &self.0
    }
}

impl ChunkId {
    /// The identifier as shown to people: `ChunkId(00_000_000_000_000_000_012)`.
    pub open spec fn text(self) -> Seq<char> {
        "ChunkId("@ + crate::num::padded_u64(self.0) + ")"@
    }

    /// The identifier as shown in debugging output: `ChunkId(12)`.
    pub open spec fn debug_text(self) -> Seq<char> {
        "ChunkId("@ + crate::num::decimal(self.0 as nat) + ")"@
    }

    /// Returns the global offset where this chunk begins in the log.
    ///
    /// The offset is a monotonically increasing value that represents the
    /// absolute position of the chunk in the entire log sequence.
    pub fn offset(&self) -> (r: u64)
        ensures
            r == self.0,
    {
        self.0
    }

    /// Renders the identifier for people.
    pub fn to_string(&self) -> (r: String)
        ensures
            r@ == self.text(),
    {
        let mut s = String::from_str("ChunkId(");
        s.append(format_pad_u64(self.0).as_str());
        s.append(")");
        s
    }

    /// Renders the identifier for debugging output.
    pub fn debug_string(&self) -> (r: String)
        ensures
            r@ == self.debug_text(),
    {
        let mut s = String::from_str("ChunkId(");
        s.append(crate::num::format_u64(self.0).as_str());
        s.append(")");
        s
    }
}

/// Both renderings of an identifier show its offset between parentheses: one
/// in twenty digits that are grouped by three, the other in plain decimal.
pub proof fn law_renderings_show_the_offset(chunk_id: ChunkId)
    ensures
        ({
            let text = chunk_id.text();
            let number = text.subrange(8, text.len() - 1);
            &&& text.take(8) == "ChunkId("@
            &&& text.last() == ')'
            &&& number.len() == 26
            &&& crate::num::is_grouped(number)
            &&& crate::num::text_value(number) == chunk_id.0
        }),
        ({
            let text = chunk_id.debug_text();
            let number = text.subrange(8, text.len() - 1);
            &&& text.take(8) == "ChunkId("@
            &&& text.last() == ')'
            &&& forall|i: int|
                0 <= i < number.len() ==> crate::num::is_digit_char(#[trigger] number[i])
            &&& number[0] == '0' ==> number.len() == 1
            &&& crate::num::text_value(number) == chunk_id.0
        }),
{
    reveal_strlit("ChunkId(");
    reveal_strlit(")");
    crate::num::law_padded_text_denotes_the_number(chunk_id.0);
    crate::num::law_decimal_text_denotes_the_number(chunk_id.0 as nat);
    let (text, debug) = (chunk_id.text(), chunk_id.debug_text());
    assert(text.take(8) =~= "ChunkId("@);
    assert(debug.take(8) =~= "ChunkId("@);
    assert(text.subrange(8, text.len() - 1) =~= crate::num::padded_u64(chunk_id.0));
    assert(debug.subrange(8, debug.len() - 1) =~= crate::num::decimal(chunk_id.0 as nat));
}

} // verus!

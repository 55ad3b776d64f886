use compact_str::CompactString;
use vstd::prelude::*;

verus! {

/// `compact_str::CompactString`: a string that keeps short texts inline.
/// Nothing of its representation is known here.
#[verifier::external_type_specification]
#[verifier::external_body]
pub struct ExCompactString(compact_str::CompactString);

/// The characters that a `CompactString` holds, in order.
pub uninterp spec fn compact_chars(cs: CompactString) -> Seq<char>;

/// The texts of a run of compact strings.
pub open spec fn compact_texts(buf: Seq<CompactString>) -> Seq<Seq<char>> {
    buf.map_values(|cs: CompactString| compact_chars(cs))
}

/// `CompactString::with_capacity`, asked for no capacity: the empty string,
/// stored inline, which takes no allocation and so cannot fail.
#[verifier::external_body]
pub(crate) fn compact_empty() -> (cs: CompactString)
    ensures
        compact_chars(cs) == Seq::<char>::empty(),
{
    CompactString::with_capacity(0)
}

/// `CompactString::push`: the character is appended at the end.
#[verifier::external_body]
pub(crate) fn compact_push(cs: &mut CompactString, ch: char)
    ensures
        compact_chars(*final(cs)) == compact_chars(*old(cs)).push(ch),
{
    cs.push(ch)
}

/// `CompactString::as_str`, copied into a `String`: the same characters.
#[verifier::external_body]
pub(crate) fn compact_to_string(cs: &CompactString) -> (s: String)
    ensures
        s@ == compact_chars(*cs),
{
    String::from(cs.as_str())
}

} // verus!

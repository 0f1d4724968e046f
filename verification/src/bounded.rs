//! Fixed-capacity strings of the `heapless` crate, as the library fills them.
//!
//! A `heapless::String<N>` holds at most `N` bytes of UTF-8 text. Each of the
//! three capacities the library uses has a name for the text it holds.
use vstd::prelude::*;
use vstd::utf8::encode_utf8;

verus! {

#[verifier::external_type_specification]
#[verifier::external_body]
pub struct ExBoundedString<const N: usize>(heapless::String<N>);

/// The text held by a volume label buffer.
pub uninterp spec fn label_text(s: heapless::String<8>) -> Seq<char>;

/// The text held by a hardware address buffer.
pub uninterp spec fn address_text(s: heapless::String<17>) -> Seq<char>;

/// The text held by a network name buffer.
pub uninterp spec fn network_text(s: heapless::String<32>) -> Seq<char>;

/// `heapless::String::<8>::new`: an empty label buffer.
#[verifier::external_body]
pub(crate) fn empty_label() -> (s: heapless::String<8>)
    ensures
        label_text(s) == Seq::<char>::empty(),
{
    heapless::String::new()
}

/// `heapless::String::<8>::push_str`: appends `t` when the result fits in
/// 8 bytes, and otherwise leaves the buffer as it was and fails.
#[verifier::external_body]
pub(crate) fn label_push_str(s: &mut heapless::String<8>, t: &str) -> (r: Result<(), ()>)
    ensures
        encode_utf8(label_text(*old(s))).len() + encode_utf8(t@).len() <= 8 ==> {
            &&& r is Ok
            &&& label_text(*final(s)) == label_text(*old(s)) + t@
        },
        encode_utf8(label_text(*old(s))).len() + encode_utf8(t@).len() > 8 ==> {
            &&& r is Err
            &&& label_text(*final(s)) == label_text(*old(s))
        },
{
    s.push_str(t)
}

/// `heapless::String::<17>::new`: an empty address buffer.
#[verifier::external_body]
pub(crate) fn empty_address() -> (s: heapless::String<17>)
    ensures
        address_text(s) == Seq::<char>::empty(),
{
    heapless::String::new()
}

/// `heapless::String::<17>::push_str`: appends `t` when the result fits in
/// 17 bytes, and otherwise leaves the buffer as it was and fails.
#[verifier::external_body]
pub(crate) fn address_push_str(s: &mut heapless::String<17>, t: &str) -> (r: Result<(), ()>)
    ensures
        encode_utf8(address_text(*old(s))).len() + encode_utf8(t@).len() <= 17 ==> {
            &&& r is Ok
            &&& address_text(*final(s)) == address_text(*old(s)) + t@
        },
        encode_utf8(address_text(*old(s))).len() + encode_utf8(t@).len() > 17 ==> {
            &&& r is Err
            &&& address_text(*final(s)) == address_text(*old(s))
        },
{
    s.push_str(t)
}

/// `heapless::String::<32>::new`: an empty network name buffer.
#[verifier::external_body]
pub(crate) fn empty_network() -> (s: heapless::String<32>)
    ensures
        network_text(s) == Seq::<char>::empty(),
{
    heapless::String::new()
}

/// `<heapless::String<32> as Clone>::clone`: a copy holding the same text.
#[verifier::external_body]
pub(crate) fn copy_network(s: &heapless::String<32>) -> (r: heapless::String<32>)
    ensures
        network_text(r) == network_text(*s),
{
    s.clone()
}

/// `<heapless::String<32> as PartialEq<&str>>::eq`: whether the buffer holds exactly `t`.
#[verifier::external_body]
pub(crate) fn network_is(s: &heapless::String<32>, t: &str) -> (r: bool)
    ensures
        r == (network_text(*s) == t@),
{
    *s == t
}

} // verus!

//! Trusted items for the fixed-capacity collections of the `heapless` crate
//! (version 0.8), at the capacities this library uses.
//!
//! A `heapless::String<N>` holds valid UTF-8 of at most `N` bytes; its
//! characters are named by `hstr32_chars` / `hstr96_chars`. A
//! `heapless::Vec<u8, N>` holds at most `N` bytes, named by `hvec64_bytes` / `hvec72_bytes`.
//! Every operation that would go beyond the capacity leaves the collection as
//! it was and reports an error (`Vec::push`, `Vec::extend_from_slice`,
//! `String::push`, `String::push_str` in heapless 0.8).
use vstd::prelude::*;
use vstd::utf8::encode_utf8;

verus! {

#[verifier::external_type_specification]
#[verifier::external_body]
pub struct ExHeaplessString<const N: usize>(heapless::String<N>);

#[verifier::external_type_specification]
#[verifier::external_body]
#[verifier::reject_recursive_types(T)]
pub struct ExHeaplessVec<T, const N: usize>(heapless::Vec<T, N>);

/// The characters a `heapless::String<32>` holds.
pub uninterp spec fn hstr32_chars(s: heapless::String<32>) -> Seq<char>;

/// The characters a `heapless::String<96>` holds.
pub uninterp spec fn hstr96_chars(s: heapless::String<96>) -> Seq<char>;

/// The bytes a `heapless::Vec<u8, 64>` holds.
pub uninterp spec fn hvec64_bytes(v: heapless::Vec<u8, 64>) -> Seq<u8>;

/// The bytes a `heapless::Vec<u8, 72>` holds.
pub uninterp spec fn hvec72_bytes(v: heapless::Vec<u8, 72>) -> Seq<u8>;

/// `heapless::String::<32>::new`: an empty string.
#[verifier::external_body]
pub(crate) fn hstr32_new() -> (res: heapless::String<32>)
    ensures
        hstr32_chars(res) == Seq::<char>::empty(),
{
    heapless::String::new()
}

/// `<heapless::String<32> as Clone>::clone`: a string with the same text.
#[verifier::external_body]
pub(crate) fn hstr32_clone(s: &heapless::String<32>) -> (res: heapless::String<32>)
    ensures
        hstr32_chars(res) == hstr32_chars(*s),
{
    s.clone()
}

/// `heapless::String::<32>::as_str`: the string's text, whose UTF-8 encoding
/// takes at most the 32 bytes of capacity.
#[verifier::external_body]
pub(crate) fn hstr32_as_str(s: &heapless::String<32>) -> (res: &str)
    ensures
        res@ == hstr32_chars(*s),
        encode_utf8(res@).len() <= 32,
{
    s.as_str()
}

/// `<heapless::String<32> as TryFrom<&str>>::try_from`: succeeds exactly when
/// the UTF-8 encoding of `s` fits in 32 bytes, and then holds the text of `s`.
#[verifier::external_body]
pub(crate) fn hstr32_try_from(s: &str) -> (res: Result<heapless::String<32>, ()>)
    ensures
        res is Ok <==> encode_utf8(s@).len() <= 32,
        res matches Ok(h) ==> hstr32_chars(h) == s@,
{
    heapless::String::<32>::try_from(s)
}

/// `heapless::String::<96>::new`: an empty string.
#[verifier::external_body]
pub(crate) fn hstr96_new() -> (res: heapless::String<96>)
    ensures
        hstr96_chars(res) == Seq::<char>::empty(),
{
    heapless::String::new()
}

/// `heapless::String::<96>::push`: appends `c` when its encoding still fits in
/// the 96 bytes of capacity; otherwise returns `Err` and leaves the string as
/// it was.
#[verifier::external_body]
pub(crate) fn hstr96_push(s: &mut heapless::String<96>, c: char) -> (res: Result<(), ()>)
    ensures
        encode_utf8(hstr96_chars(*old(s))).len() + encode_utf8(seq![c]).len() <= 96 ==> {
            &&& res is Ok
            &&& hstr96_chars(*final(s)) == hstr96_chars(*old(s)).push(c)
        },
        encode_utf8(hstr96_chars(*old(s))).len() + encode_utf8(seq![c]).len() > 96 ==> {
            &&& res is Err
            &&& hstr96_chars(*final(s)) == hstr96_chars(*old(s))
        },
{
    s.push(c)
}

/// `heapless::Vec::<u8, 72>::new`: an empty vector.
#[verifier::external_body]
pub(crate) fn hvec72_new() -> (res: heapless::Vec<u8, 72>)
    ensures
        hvec72_bytes(res) == Seq::<u8>::empty(),
{
    heapless::Vec::new()
}

/// `heapless::Vec::<u8, 72>::push`: appends `x` when fewer than 72 bytes are
/// held; otherwise hands `x` back and leaves the vector as it was.
#[verifier::external_body]
pub(crate) fn hvec72_push(v: &mut heapless::Vec<u8, 72>, x: u8) -> (res: Result<(), u8>)
    ensures
        hvec72_bytes(*old(v)).len() < 72 ==> {
            &&& res is Ok
            &&& hvec72_bytes(*final(v)) == hvec72_bytes(*old(v)).push(x)
        },
        hvec72_bytes(*old(v)).len() >= 72 ==> {
            &&& res == Err::<(), u8>(x)
            &&& hvec72_bytes(*final(v)) == hvec72_bytes(*old(v))
        },
{
    v.push(x)
}

/// `heapless::Vec::<u8, 72>::extend_from_slice`: appends all of `other` when
/// it fits in the 72 bytes of capacity; otherwise appends nothing and returns
/// `Err`.
#[verifier::external_body]
pub(crate) fn hvec72_extend_from_slice(v: &mut heapless::Vec<u8, 72>, other: &[u8]) -> (res: Result<
    (),
    (),
>)
    ensures
        hvec72_bytes(*old(v)).len() + other@.len() <= 72 ==> {
            &&& res is Ok
            &&& hvec72_bytes(*final(v)) == hvec72_bytes(*old(v)) + other@
        },
        hvec72_bytes(*old(v)).len() + other@.len() > 72 ==> {
            &&& res is Err
            &&& hvec72_bytes(*final(v)) == hvec72_bytes(*old(v))
        },
{
    v.extend_from_slice(other)
}

/// `heapless::Vec::<u8, 72>::as_slice`: the bytes held, at most 72 of them.
#[verifier::external_body]
pub(crate) fn hvec72_as_slice(v: &heapless::Vec<u8, 72>) -> (res: &[u8])
    ensures
        res@ == hvec72_bytes(*v),
        res@.len() <= 72,
{
    v.as_slice()
}

/// `heapless::Vec::<u8, 64>::new`: an empty vector.
#[verifier::external_body]
pub(crate) fn hvec64_new() -> (res: heapless::Vec<u8, 64>)
    ensures
        hvec64_bytes(res) == Seq::<u8>::empty(),
{
    heapless::Vec::new()
}

/// `heapless::Vec::<u8, 64>::push`: appends `x` when fewer than 64 bytes are
/// held; otherwise hands `x` back and leaves the vector as it was.
#[verifier::external_body]
pub(crate) fn hvec64_push(v: &mut heapless::Vec<u8, 64>, x: u8) -> (res: Result<(), u8>)
    ensures
        hvec64_bytes(*old(v)).len() < 64 ==> {
            &&& res is Ok
            &&& hvec64_bytes(*final(v)) == hvec64_bytes(*old(v)).push(x)
        },
        hvec64_bytes(*old(v)).len() >= 64 ==> {
            &&& res == Err::<(), u8>(x)
            &&& hvec64_bytes(*final(v)) == hvec64_bytes(*old(v))
        },
{
    v.push(x)
}

/// `heapless::Vec::<u8, 64>::extend_from_slice`: appends all of `other` when
/// it fits in the 64 bytes of capacity; otherwise appends nothing and returns
/// `Err`.
#[verifier::external_body]
pub(crate) fn hvec64_extend_from_slice(v: &mut heapless::Vec<u8, 64>, other: &[u8]) -> (res: Result<
    (),
    (),
>)
    ensures
        hvec64_bytes(*old(v)).len() + other@.len() <= 64 ==> {
            &&& res is Ok
            &&& hvec64_bytes(*final(v)) == hvec64_bytes(*old(v)) + other@
        },
        hvec64_bytes(*old(v)).len() + other@.len() > 64 ==> {
            &&& res is Err
            &&& hvec64_bytes(*final(v)) == hvec64_bytes(*old(v))
        },
{
    v.extend_from_slice(other)
}

/// `heapless::Vec::<u8, 64>::as_slice`: the bytes held, at most 64 of them.
#[verifier::external_body]
pub(crate) fn hvec64_as_slice(v: &heapless::Vec<u8, 64>) -> (res: &[u8])
    ensures
        res@ == hvec64_bytes(*v),
        res@.len() <= 64,
{
    v.as_slice()
}

} // verus!

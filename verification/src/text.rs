//! Null-terminated texts.
use vstd::prelude::*;
use vstd::utf8::{decode_utf8, valid_utf8};

verus! {

/// `String::push`: appends one character.
pub assume_specification[ String::push ](s: &mut String, c: char)
    ensures
        final(s)@ == old(s)@.push(c),
;

/// The bytes in front of the first zero byte.
pub open spec fn until_zero(s: Seq<u8>) -> Seq<u8>
    decreases s.len(),
{
    if s.len() == 0 || s[0] == 0 {
        Seq::empty()
    } else {
        seq![s[0]] + until_zero(s.skip(1))
    }
}

/// The bytes in front of the first zero byte are those up to where it stands.
proof fn until_zero_at(s: Seq<u8>, n: int)
    requires
        0 <= n <= s.len(),
        forall|k: int| 0 <= k < n ==> s[k] != 0,
        n == s.len() || s[n] == 0,
    ensures
        until_zero(s) == s.take(n),
    decreases n,
{
    if n == 0 {
        assert(s.take(0) =~= Seq::empty());
    } else {
        until_zero_at(s.skip(1), n - 1);
        assert(s.take(n) =~= seq![s[0]] + s.skip(1).take(n - 1));
    }
}

/// Finds the end of a null-terminated text.
pub(crate) fn text_length(s: &[u8]) -> (n: usize)
    ensures
        n <= s@.len(),
        s@.take(n as int) == until_zero(s@),
{
    let mut n: usize = 0;
    while n < s.len() && s[n] != 0
        invariant
            n <= s@.len(),
            forall|k: int| 0 <= k < n ==> s@[k] != 0,
        decreases s@.len() - n,
    {
        n += 1;
    }
    proof {
        until_zero_at(s@, n as int);
    }
    n
}

/// One character for each byte.
pub open spec fn chars(s: Seq<u8>) -> Seq<char> {
    Seq::new(s.len(), |i: int| s[i] as char)
}

/// The text that stands in front of the first zero byte, with one character for
/// each byte.
pub(crate) fn byte_text(s: &[u8]) -> (r: String)
    ensures
        r@ == chars(until_zero(s@)),
{
    let n: usize = text_length(s);
    let mut text = String::new();
    let mut i: usize = 0;
    while i < n
        invariant
            i <= n <= s@.len(),
            text@ == chars(s@.take(i as int)),
        decreases n - i,
    {
        text.push(s[i] as char);
        i += 1;
        assert(text@ =~= chars(s@.take(i as int)));
    }
    text
}

/// The text that the given bytes stand for in UTF-8, with replacements for what
/// is not valid.
pub uninterp spec fn lossy_text(s: Seq<u8>) -> Seq<char>;

/// `String::from_utf8_lossy`: the text that the bytes stand for.  Valid UTF-8 is
/// decoded as it is; which replacements stand for the rest is left open.
#[verifier::external_body]
pub(crate) fn from_utf8_lossy(s: &[u8]) -> (r: String)
    ensures
        r@ == lossy_text(s@),
        valid_utf8(s@) ==> r@ == decode_utf8(s@),
{
    String::from_utf8_lossy(s).into_owned()
}

/// A text ends at its first zero byte, or takes all bytes if there is none.
pub proof fn text_ends_at_zero(s: Seq<u8>)
    ensures
        until_zero(s).len() <= s.len(),
        until_zero(s) == s.take(until_zero(s).len() as int),
        forall|k: int| 0 <= k < until_zero(s).len() ==> #[trigger] s[k] != 0,
        until_zero(s).len() == s.len() || s[until_zero(s).len() as int] == 0,
    decreases s.len(),
{
    if s.len() == 0 || s[0] == 0 {
        assert(s.take(0) =~= Seq::empty());
    } else {
        let t = s.skip(1);
        text_ends_at_zero(t);
        let n = until_zero(t).len() as int;
        assert(until_zero(s) =~= s.take(n + 1)) by {
            assert(s.take(n + 1) =~= seq![s[0]] + t.take(n));
        }
        assert forall|k: int| 0 <= k < n + 1 implies #[trigger] s[k] != 0 by {
            if k > 0 {
                assert(t[k - 1] != 0);
            }
        }
    }
}

/// Each byte is a character with the same number.
pub proof fn chars_are_bytes(s: Seq<u8>)
    ensures
        chars(s).len() == s.len(),
        forall|k: int| 0 <= k < s.len() ==> #[trigger] chars(s)[k] as u32 == s[k],
{
}

} // verus!

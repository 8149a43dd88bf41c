use vstd::prelude::*;

verus! {

/// The characters that `String::from_utf8_lossy` makes of `b`.
pub uninterp spec fn utf8_lossy(b: Seq<u8>) -> Seq<char>;

/// `b` holds only ASCII bytes.
pub open spec fn is_ascii(b: Seq<u8>) -> bool {
    forall|i: int| 0 <= i < b.len() ==> b[i] < 128
}

/// The characters of an ASCII byte sequence, one per byte.
pub open spec fn ascii_chars(b: Seq<u8>) -> Seq<char> {
    b.map_values(|c: u8| c as char)
}

/// Relies on `String::from_utf8_lossy`: the text depends on the bytes alone,
/// and ASCII bytes (valid UTF-8) come out one character per byte.
#[verifier::external_body]
pub(crate) fn lossy_string(b: &[u8]) -> (r: String)
    ensures
        r@ == utf8_lossy(b@),
        is_ascii(b@) ==> r@ == ascii_chars(b@),
{
    String::from_utf8_lossy(b).into_owned()
}

/// The text that the library makes of `b`: one character per byte when
/// every byte is ASCII, else what `String::from_utf8_lossy` makes of it.
pub open spec fn decoded_text(b: Seq<u8>) -> Seq<char> {
    if is_ascii(b) {
        ascii_chars(b)
    } else {
        utf8_lossy(b)
    }
}

/// Decodes bytes as text, replacing invalid sequences.
pub fn text_from_bytes(b: &[u8]) -> (r: String)
    ensures
        r@ == decoded_text(b@),
        r@ == utf8_lossy(b@),
{
    lossy_string(b)
}

/// `b` without its trailing zero bytes.
pub open spec fn trim_trailing_nul(b: Seq<u8>) -> Seq<u8>
    decreases b.len(),
{
    if b.len() > 0 && b.last() == 0 {
        trim_trailing_nul(b.drop_last())
    } else {
        b
    }
}

/// Text of a fixed-width field that is padded with zero bytes at its end.
pub fn padded_string(b: &[u8]) -> (r: String)
    ensures
        r@ == decoded_text(trim_trailing_nul(b@)),
{
    let mut end: usize = b.len();
    proof {
        assert(b@.subrange(0, b@.len() as int) =~= b@);
    }
    while end > 0 && b[end - 1] == 0
        invariant
            end <= b@.len(),
            trim_trailing_nul(b@) == trim_trailing_nul(b@.subrange(0, end as int)),
        decreases end,
    {
        proof {
            assert(b@.subrange(0, end as int).drop_last() =~= b@.subrange(0, end - 1));
        }
        end = end - 1;
    }
    let mut kept: Vec<u8> = Vec::new();
    let mut i: usize = 0;
    while i < end
        invariant
            end <= b@.len(),
            i <= end,
            kept@ =~= b@.subrange(0, i as int),
        decreases end - i,
    {
        kept.push(b[i]);
        i = i + 1;
    }
    text_from_bytes(kept.as_slice())
}

} // verus!

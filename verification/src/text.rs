//! Character-level helpers shared by the validators and formatters: the
//! UTF-8 byte length of a character sequence, and building strings.

use vstd::prelude::*;
use vstd::utf8::*;

verus! {

/// Number of bytes of the UTF-8 encoding of `s` (what `str::len` counts).
pub open spec fn byte_len(s: Seq<char>) -> nat {
    encode_utf8(s).len()
}

/// Number of bytes that `c` takes in UTF-8.
pub open spec fn char_width(c: char) -> nat {
    encode_scalar(c as u32).len()
}

pub proof fn lemma_byte_len_push(s: Seq<char>, c: char)
    ensures
        byte_len(s.push(c)) == byte_len(s) + char_width(c),
        encode_utf8(s.push(c)) == encode_utf8(s) + encode_scalar(c as u32),
    decreases s.len(),
{
    if s.len() == 0 {
        assert(s.push(c).drop_first() =~= Seq::<char>::empty());
        assert(encode_utf8(Seq::<char>::empty()) =~= Seq::<u8>::empty());
        assert(encode_utf8(s) =~= Seq::<u8>::empty());
        assert(encode_utf8(s.push(c)) =~= encode_scalar(c as u32));
    } else {
        assert(s.push(c).drop_first() =~= s.drop_first().push(c));
        lemma_byte_len_push(s.drop_first(), c);
        assert(encode_utf8(s.push(c)) =~= encode_utf8(s) + encode_scalar(c as u32));
    }
}

/// A character sequence never takes fewer bytes than it has characters.
pub proof fn lemma_byte_len_at_least_len(s: Seq<char>)
    ensures
        byte_len(s) >= s.len(),
    decreases s.len(),
{
    if s.len() > 0 {
        lemma_byte_len_at_least_len(s.drop_first());
    }
}

/// A character sequence takes at most four bytes per character.
pub proof fn lemma_byte_len_at_most_four_per_char(s: Seq<char>)
    ensures
        byte_len(s) <= 4 * s.len(),
    decreases s.len(),
{
    if s.len() > 0 {
        lemma_byte_len_at_most_four_per_char(s.drop_first());
    }
}

/// The UTF-8 width of a character, computed.
pub fn utf8_width(c: char) -> (w: usize)
    ensures
        w == char_width(c),
        1 <= w <= 4,
{
    proof {
        char_is_scalar(c);
    }
    let u = c as u32;
    if u <= 0x7f {
        1
    } else if u <= 0x7ff {
        2
    } else if u <= 0xffff {
        3
    } else {
        4
    }
}

/// Whether the UTF-8 encoding of a character slice takes more than `limit`
/// bytes. The count stops as soon as it passes the limit.
pub fn exceeds_byte_len(s: &[char], limit: usize) -> (r: bool)
    ensures
        r == (byte_len(s@) > limit),
{
    let mut n: usize = 0;
    let mut i: usize = 0;
    while i < s.len()
        invariant
            0 <= i <= s@.len(),
            n == byte_len(s@.take(i as int)),
            n <= limit,
        decreases s@.len() - i,
    {
        let w = utf8_width(s[i]);
        proof {
            assert(s@.take(i as int + 1) =~= s@.take(i as int).push(s@[i as int]));
            lemma_byte_len_push(s@.take(i as int), s@[i as int]);
        }
        if w > limit - n {
            proof {
                lemma_byte_len_prefix(s@, i as int + 1);
            }
            return true;
        }
        n = n + w;
        i = i + 1;
    }
    proof {
        assert(s@.take(i as int) =~= s@);
    }
    false
}

/// A prefix never takes more bytes than the whole sequence.
pub proof fn lemma_byte_len_prefix(s: Seq<char>, k: int)
    requires
        0 <= k <= s.len(),
    ensures
        byte_len(s.take(k)) <= byte_len(s),
    decreases s.len() - k,
{
    if k < s.len() {
        lemma_byte_len_prefix(s, k + 1);
        assert(s.take(k + 1) =~= s.take(k).push(s[k]));
        lemma_byte_len_push(s.take(k), s[k]);
    } else {
        assert(s.take(k) =~= s);
    }
}

/// The characters of a string, in order.
pub fn chars_of(s: &str) -> (v: Vec<char>)
    ensures
        v@ == s@,
{
    let n = s.unicode_len();
    let mut v: Vec<char> = Vec::new();
    let mut i: usize = 0;
    while i < n
        invariant
            n == s@.len(),
            0 <= i <= n,
            v@ == s@.take(i as int),
        decreases n - i,
    {
        let c = s.get_char(i);
        v.push(c);
        proof {
            assert(s@.take(i as int + 1) =~= s@.take(i as int).push(c));
        }
        i = i + 1;
    }
    proof {
        assert(s@.take(n as int) =~= s@);
    }
    v
}

/// `String::push` appends one character.
pub assume_specification[ String::push ](string: &mut String, ch: char)
    ensures
        final(string)@ == old(string)@.push(ch),
;

/// What `{:?}` prints for a character (std's `Debug` for `char`): the
/// character in single quotes, escaped where it is not printable.
pub uninterp spec fn debug_char_text(c: char) -> Seq<char>;

/// std's `Debug` formatting of a `char`. Printable ASCII characters other
/// than the quote and the backslash are printed as they are, between single
/// quotes (std's documented escaping); for other characters the text is only
/// named, since it follows the Unicode tables of `char::escape_debug`.
/// Stated too: no other character has the same text. Between the quotes
/// stands either the character itself (never a backslash) or one of the
/// escapes `\0`, `\t`, `\r`, `\n`, `\\`, `\'` and `\u{..}` with the
/// code point in hex, each of which names one character.
#[verifier::external_body]
pub(crate) fn debug_char(c: char) -> (s: String)
    ensures
        s@ == debug_char_text(c),
        forall|d: char| #[trigger] debug_char_text(d) == s@ ==> d == c,
        (' ' <= c && c <= '~' && c != '\'' && c != '\\') ==> s@ == seq!['\'', c, '\''],
{
    format!("{c:?}")
}

} // verus!

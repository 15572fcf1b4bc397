//! Text as it crosses the C boundary, and small operations on it.

use crate::error::{ErrorView, InferaError};
use vstd::prelude::*;

verus! {

/// Calls `String::from_utf8`, which accepts exactly the byte sequences that
/// are valid UTF-8 and hands out the text that they encode. That acceptance,
/// and that text, is what the contract claims.
#[verifier::external_body]
pub(crate) fn utf8_text(bytes: &[u8]) -> (r: Option<String>)
    ensures
        r is Some <==> vstd::utf8::valid_utf8(bytes@),
        r matches Some(s) ==> s@ == vstd::utf8::decode_utf8(bytes@),
{
    String::from_utf8(bytes.to_vec()).ok()
}

/// The text that bytes show: what they encode, with a replacement character in
/// the place of each part that is not valid UTF-8.
pub uninterp spec fn utf8_lossy(bytes: Seq<u8>) -> Seq<char>;

/// Calls `String::from_utf8_lossy`. Its result is a function of the bytes alone,
/// which `utf8_lossy` names. Bytes that are valid UTF-8 come out as the text that
/// they encode.
#[verifier::external_body]
pub(crate) fn lossy_text(bytes: &[u8]) -> (r: String)
    ensures
        r@ == utf8_lossy(bytes@),
        vstd::utf8::valid_utf8(bytes@) ==> r@ == vstd::utf8::decode_utf8(bytes@),
{
    String::from_utf8_lossy(bytes).into_owned()
}

/// What a C string argument stands for: its text, or why it has none.
pub open spec fn argument_text(arg: Option<Seq<u8>>) -> Result<Seq<char>, ErrorView> {
    match arg {
        None => Err(ErrorView::NullPointer),
        Some(bytes) => if vstd::utf8::valid_utf8(bytes) {
            Ok(vstd::utf8::decode_utf8(bytes))
        } else {
            Err(ErrorView::Utf8Error)
        },
    }
}

/// The bytes of an optional slice.
pub open spec fn bytes_of(arg: Option<&[u8]>) -> Option<Seq<u8>> {
    match arg {
        Some(bytes) => Some(bytes@),
        None => None,
    }
}

/// Reads a C string argument: `None` stands for a null pointer, and otherwise
/// the bytes up to the terminator are given.
pub fn text_argument(arg: Option<&[u8]>) -> (r: Result<String, InferaError>)
    ensures
        argument_text(bytes_of(arg)) matches Ok(text) ==> r is Ok && r->Ok_0@ == text,
        argument_text(bytes_of(arg)) matches Err(error) ==> r is Err && r->Err_0@ == error,
{
    match arg {
        None => Err(InferaError::NullPointer),
        Some(bytes) => match utf8_text(bytes) {
            Some(text) => Ok(text),
            None => Err(InferaError::Utf8Error),
        },
    }
}

/// What a C string can carry of a text: all of it, or nothing where a NUL
/// character would end it early.
pub open spec fn c_text_of(text: Seq<char>) -> Seq<char> {
    if text.contains('\0') {
        Seq::empty()
    } else {
        text
    }
}

/// The text to hand out as a C string. A text with a NUL character in it has no
/// C string and is replaced by the empty one.
pub fn c_text(text: String) -> (r: String)
    ensures
        r@ == c_text_of(text@),
{
    for c in it: text.as_str().chars()
        invariant
            it.seq() == text@,
            forall|j: int| 0 <= j < it.index() ==> text@[j] != '\0',
    {
        if c == '\0' {
            assert(text@[it.index() as int] == '\0');
            return String::new();
        }
    }
    text
}

/// Tells whether `text` begins with `prefix`.
pub fn starts_with(text: &str, prefix: &str) -> (r: bool)
    ensures
        r == prefix@.is_prefix_of(text@),
{
    let n: usize = prefix.unicode_len();
    if n > text.unicode_len() {
        return false;
    }
    let head: String = text.substring_char(0, n).to_owned();
    head == prefix.to_owned()
}

/// Tells whether Unicode counts `c` as white space.
pub open spec fn is_white_space(c: char) -> bool {
    let n = c as u32;
    ||| 0x09 <= n <= 0x0d
    ||| n == 0x20
    ||| n == 0x85
    ||| n == 0xa0
    ||| n == 0x1680
    ||| 0x2000 <= n <= 0x200a
    ||| n == 0x2028
    ||| n == 0x2029
    ||| n == 0x202f
    ||| n == 0x205f
    ||| n == 0x3000
}

/// `s` without the white space at its two ends.
pub open spec fn trimmed(s: Seq<char>) -> Seq<char>
    decreases s.len(),
{
    if s.len() == 0 {
        s
    } else if is_white_space(s.first()) {
        trimmed(s.drop_first())
    } else if is_white_space(s.last()) {
        trimmed(s.drop_last())
    } else {
        s
    }
}

/// Every character is white space.
pub open spec fn all_white_space(s: Seq<char>) -> bool {
    forall|i: int| 0 <= i < s.len() ==> is_white_space(#[trigger] s[i])
}

/// White space in front does not matter to [`trimmed`].
proof fn lemma_trimmed_lead(lead: Seq<char>, rest: Seq<char>)
    requires
        all_white_space(lead),
    ensures
        trimmed(lead + rest) == trimmed(rest),
    decreases lead.len(),
{
    if lead.len() > 0 {
        assert((lead + rest).drop_first() == lead.drop_first() + rest);
        assert((lead + rest).first() == lead[0]);
        assert forall|i: int| 0 <= i < lead.drop_first().len() implies is_white_space(
            #[trigger] lead.drop_first()[i],
        ) by {
            assert(is_white_space(lead[i + 1]));
        }
        lemma_trimmed_lead(lead.drop_first(), rest);
    } else {
        assert(lead + rest == rest);
    }
}

/// White space behind does not matter to [`trimmed`].
proof fn lemma_trimmed_trail(core: Seq<char>, trail: Seq<char>)
    requires
        core.len() > 0,
        !is_white_space(core.first()),
        !is_white_space(core.last()),
        all_white_space(trail),
    ensures
        trimmed(core + trail) == core,
    decreases trail.len(),
{
    assert((core + trail).first() == core[0]);
    if trail.len() > 0 {
        assert((core + trail).drop_last() == core + trail.drop_last());
        assert((core + trail).last() == trail[trail.len() - 1]);
        lemma_trimmed_trail(core, trail.drop_last());
    } else {
        assert(core + trail == core);
    }
}

/// Tells whether Unicode counts `c` as white space.
fn white_space(c: char) -> (r: bool)
    ensures
        r == is_white_space(c),
{
    let n: u32 = c as u32;
    (0x09 <= n && n <= 0x0d) || n == 0x20 || n == 0x85 || n == 0xa0 || n == 0x1680 || (0x2000 <= n
        && n <= 0x200a) || n == 0x2028 || n == 0x2029 || n == 0x202f || n == 0x205f || n == 0x3000
}

/// `text` without the white space at its two ends.
pub fn trim(text: &str) -> (r: String)
    ensures
        r@ == trimmed(text@),
{
    let mut start: usize = 0;
    let mut end: usize = 0;
    let mut i: usize = 0;
    let n: usize = text.unicode_len();
    for c in it: text.chars()
        invariant
            it.seq() == text@,
            n == text@.len(),
            i == it.index(),
            start <= end <= i,
            start < end ==> !is_white_space(text@[start as int]) && !is_white_space(text@[end - 1]),
            start == end ==> start == 0 && all_white_space(text@.take(i as int)),
            all_white_space(text@.take(start as int)),
            forall|j: int| end <= j < i ==> is_white_space(#[trigger] text@[j]),
    {
        assert(c == text@[i as int]);
        if !white_space(c) {
            if start == end {
                start = i;
            }
            end = i + 1;
        }
        i = i + 1;
        assert(text@.take(i as int) == text@.take(i - 1).push(c));
    }
    let r: String = text.substring_char(start, end).to_owned();
    proof {
        let lead = text@.take(start as int);
        let trail = text@.skip(end as int);
        assert(text@ == lead + (r@ + trail));
        lemma_trimmed_lead(lead, r@ + trail);
        if start < end {
            lemma_trimmed_trail(r@, trail);
        } else {
            assert(text@.take(n as int) == text@);
            assert(text@ + Seq::<char>::empty() == text@);
            lemma_trimmed_lead(text@, Seq::empty());
        }
    }
    r
}

/// White space at the two ends of a text is taken away, and nothing else is.
pub proof fn law_trimming_takes_white_space_at_the_ends(
    lead: Seq<char>,
    core: Seq<char>,
    trail: Seq<char>,
)
    requires
        all_white_space(lead),
        all_white_space(trail),
        core.len() > 0 ==> !is_white_space(core.first()) && !is_white_space(core.last()),
    ensures
        trimmed(lead + core + trail) == core,
{
    assert(lead + core + trail == lead + (core + trail));
    lemma_trimmed_lead(lead, core + trail);
    if core.len() > 0 {
        lemma_trimmed_trail(core, trail);
    } else {
        assert(core + trail == trail + core);
        lemma_trimmed_lead(trail, core);
    }
}

/// The characters that count as white space.
pub proof fn law_white_space(c: char)
    ensures
        is_white_space(c) <==> {
            ||| c == '\t' || c == '\n' || c == '\u{b}' || c == '\u{c}' || c == '\r' || c == ' '
            ||| c == '\u{85}' || c == '\u{a0}' || c == '\u{1680}'
            ||| '\u{2000}' <= c <= '\u{200a}'
            ||| c == '\u{2028}' || c == '\u{2029}' || c == '\u{202f}' || c == '\u{205f}'
            ||| c == '\u{3000}'
        },
{
}

/// A C string argument that encodes a text stands for that text, whichever it is.
/// Bytes that encode none and null pointers are told apart.
pub proof fn law_arguments_stand_for_the_text_they_encode(text: Seq<char>, bytes: Seq<u8>)
    ensures
        argument_text(Some(vstd::utf8::encode_utf8(text))) == Ok::<Seq<char>, ErrorView>(text),
        argument_text(Some(bytes)) matches Ok(read) ==> vstd::utf8::encode_utf8(read) == bytes,
        argument_text(Some(bytes)) matches Err(error) ==> error == ErrorView::Utf8Error
            && !vstd::utf8::valid_utf8(bytes),
        argument_text(None) == Err::<Seq<char>, ErrorView>(ErrorView::NullPointer),
{
    vstd::utf8::encode_utf8_valid_utf8(text);
    vstd::utf8::encode_utf8_decode_utf8(text);
    if vstd::utf8::valid_utf8(bytes) {
        vstd::utf8::decode_utf8_encode_utf8(bytes);
    }
}

/// The bytes of an argument are those that are given.
pub proof fn law_bytes_of_an_argument(arg: &[u8])
    ensures
        bytes_of(Some(arg)) == Some(arg@),
        bytes_of(None) == None::<Seq<u8>>,
{
}

/// A text without a NUL character is handed out as it is. One with such a
/// character anywhere is handed out as the empty text.
pub proof fn law_c_text(before: Seq<char>, after: Seq<char>)
    ensures
        c_text_of(before + seq!['\0'] + after) == Seq::<char>::empty(),
        !before.contains('\0') ==> c_text_of(before) == before,
{
    let text = before + seq!['\0'] + after;
    assert(text[before.len() as int] == '\0');
}

} // verus!

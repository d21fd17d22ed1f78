//! What the saved file is named and what bytes a displayed image gives,
//! stated over the inputs and independently of how those functions are written.
use vstd::prelude::*;
use vstd::utf8::encode_utf8;
use crate::files::{
    image_bytes_outcome, lemma_after_first, lemma_after_first_absent, lemma_trim_start_dashes,
    safe_file_name_chars, sanitized, trim_dashes,
};
use crate::laws::law_safe_file_name_shape;
use crate::outside::base64_standard_decode;
use crate::text::{contains_chars, decimal, digit_char};

verus! {

/// A data URL is decoded after its first comma.
pub proof fn law_image_bytes_after_first_comma(before: Seq<char>, after: Seq<char>)
    requires
        !before.contains(','),
    ensures
        image_bytes_outcome(before + seq![','] + after) == match base64_standard_decode(encode_utf8(after)) {
            Some(bytes) => Ok::<Seq<u8>, Seq<char>>(bytes),
            None => Err("图片 data URL 不是有效 base64"@),
        },
{
    lemma_after_first(before, ',', after);
}

/// Text without a comma is decoded whole, as bare base64.
pub proof fn law_image_bytes_bare(text: Seq<char>)
    requires
        !text.contains(','),
    ensures
        image_bytes_outcome(text) == match base64_standard_decode(encode_utf8(text)) {
            Some(bytes) => Ok::<Seq<u8>, Seq<char>>(bytes),
            None => Err("图片数据不是有效 base64"@),
        },
{
    lemma_after_first_absent(text, ',');
}

/// The extension of a saved file follows its MIME type: `.jpg` for a type
/// that mentions `jpeg` or `jpg`, else `.webp` for one that mentions `webp`,
/// else `.png`.
pub proof fn law_safe_file_name_extension(name: Seq<char>, mime_type: Seq<char>, millis: nat)
    ensures
        (contains_chars(mime_type, "jpeg"@) || contains_chars(mime_type, "jpg"@)) ==> ".jpg"@.is_suffix_of(
            safe_file_name_chars(name, mime_type, millis),
        ),
        !(contains_chars(mime_type, "jpeg"@) || contains_chars(mime_type, "jpg"@)) && contains_chars(
            mime_type,
            "webp"@,
        ) ==> ".webp"@.is_suffix_of(safe_file_name_chars(name, mime_type, millis)),
        !(contains_chars(mime_type, "jpeg"@) || contains_chars(mime_type, "jpg"@) || contains_chars(
            mime_type,
            "webp"@,
        )) ==> ".png"@.is_suffix_of(safe_file_name_chars(name, mime_type, millis)),
{
    law_safe_file_name_shape(name, mime_type, millis);
    let r = safe_file_name_chars(name, mime_type, millis);
    reveal_strlit(".");
    reveal_strlit("jpg");
    reveal_strlit("webp");
    reveal_strlit("png");
    reveal_strlit(".jpg");
    reveal_strlit(".webp");
    reveal_strlit(".png");
    let stem = crate::files::file_stem(name, millis);
    let ext = crate::files::extension_for(mime_type);
    assert(r.subrange(r.len() - ext.len() - 1, r.len() as int) =~= "."@ + ext);
}

/// An ASCII letter or digit, or `_`.
pub open spec fn is_word_char(c: char) -> bool {
    ('a' <= c <= 'z') || ('A' <= c <= 'Z') || ('0' <= c <= '9') || c == '_'
}

/// A name that begins and ends with a letter, digit or `_` is saved under
/// itself with every character other than a letter, digit, `-` or `_`
/// replaced by `-`, then the extension.
pub proof fn law_safe_file_name_keeps_name(name: Seq<char>, mime_type: Seq<char>, millis: nat)
    requires
        name.len() > 0,
        is_word_char(name[0]),
        is_word_char(name.last()),
    ensures
        ({
            let stem = name.map_values(
                |c: char|
                    if is_word_char(c) || c == '-' {
                        c
                    } else {
                        '-'
                    },
            );
            safe_file_name_chars(name, mime_type, millis) == stem + "."@ + crate::files::extension_for(
                mime_type,
            )
        }),
{
    law_safe_file_name_shape(name, mime_type, millis);
    let s = sanitized(name);
    assert(s[0] == name[0]);
    assert(s.last() == name.last());
    assert(crate::files::trim_start_dashes(s) == s);
    assert(crate::files::trim_end_dashes(s) == s);
    let stem = name.map_values(|c: char| if is_word_char(c) || c == '-' { c } else { '-' });
    assert(s =~= stem);
}

/// A name with no letter, digit or `_` is saved as `myaitoimg-`, the time
/// in milliseconds, and the extension.
pub proof fn law_safe_file_name_without_word_chars(name: Seq<char>, mime_type: Seq<char>, millis: nat)
    requires
        forall|i: int| 0 <= i < name.len() ==> !is_word_char(#[trigger] name[i]),
    ensures
        safe_file_name_chars(name, mime_type, millis) == "myaitoimg-"@ + decimal(millis) + "."@
            + crate::files::extension_for(mime_type),
{
    law_safe_file_name_shape(name, mime_type, millis);
    let s = sanitized(name);
    assert forall|j: int| 0 <= j < s.len() implies s[j] == '-' by {
        assert(!is_word_char(name[j]));
    }
    lemma_trim_start_dashes(s, s.len() as int);
    assert(s.skip(s.len() as int).len() == 0);
    assert(trim_dashes(s).len() == 0);
}

/// The number that a string of decimal digits stands for.
pub open spec fn digits_value(s: Seq<char>) -> int
    decreases s.len(),
{
    if s.len() == 0 {
        0
    } else {
        digits_value(s.drop_last()) * 10 + (s.last() as int - '0' as int)
    }
}

proof fn lemma_digit_value(d: nat)
    requires
        d < 10,
    ensures
        digit_char(d) as int - '0' as int == d,
{
}

/// Decimal text stands for the number written: digits only, no leading
/// zero (but for zero itself), and of the right value.
pub proof fn law_decimal(n: nat)
    ensures
        digits_value(decimal(n)) == n,
        decimal(n).len() > 0,
        forall|i: int| 0 <= i < decimal(n).len() ==> '0' <= #[trigger] decimal(n)[i] <= '9',
        decimal(n)[0] != '0' || n == 0,
    decreases n,
{
    let d = decimal(n);
    if n >= 10 {
        law_decimal(n / 10);
        assert(d.drop_last() =~= decimal(n / 10));
        assert forall|i: int| 0 <= i < d.len() implies '0' <= #[trigger] d[i] <= '9' by {
            if i < d.len() - 1 {
                assert(d[i] == decimal(n / 10)[i]);
            } else {
                assert(d[i] == digit_char(n % 10));
            }
        }
        assert(d[0] == decimal(n / 10)[0]);
        lemma_digit_value(n % 10);
        assert(d.last() == digit_char(n % 10));
        assert(digits_value(d) == digits_value(decimal(n / 10)) * 10 + (n % 10));
        assert((n / 10) * 10 + n % 10 == n) by (nonlinear_arith);
    } else {
        assert(d =~= seq![digit_char(n)]);
        assert(d.drop_last() =~= Seq::<char>::empty());
        lemma_digit_value(n);
        assert(digits_value(d) == digits_value(d.drop_last()) * 10 + (digit_char(n) as int - '0' as int));
    }
}

} // verus!

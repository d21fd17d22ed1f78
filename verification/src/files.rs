//! Turning a displayed image back into bytes and naming the file it is saved as.
use vstd::prelude::*;
use vstd::string::*;
use vstd::utf8::encode_utf8;
use crate::outside::{base64_standard_decode, decode_base64, duration_millis, since_unix_epoch, system_now};
use crate::text::{contains_chars, contains_str, decimal, ends_with, owned, push_char, push_decimal, split_once_char};

verus! {

/// What follows the first `c` in `s`; nothing where `c` does not occur.
pub open spec fn after_first(s: Seq<char>, c: char) -> Option<Seq<char>>
    decreases s.len(),
{
    if s.len() == 0 {
        None
    } else if s[0] == c {
        Some(s.drop_first())
    } else {
        after_first(s.drop_first(), c)
    }
}

/// A text split at a `c` that does not occur before it is split at the first `c`.
pub proof fn lemma_after_first(before: Seq<char>, c: char, after: Seq<char>)
    requires
        !before.contains(c),
    ensures
        after_first(before + seq![c] + after, c) == Some(after),
    decreases before.len(),
{
    let s = before + seq![c] + after;
    if before.len() == 0 {
        assert(s =~= seq![c] + after);
        assert(s.drop_first() =~= after);
    } else {
        assert(before[0] != c) by {
            assert(before.contains(before[0]));
        }
        assert(!before.drop_first().contains(c)) by {
            if before.drop_first().contains(c) {
                let k = choose|k: int| 0 <= k < before.drop_first().len() && before.drop_first()[k] == c;
                assert(before[k + 1] == c);
            }
        }
        lemma_after_first(before.drop_first(), c, after);
        assert(s.drop_first() =~= before.drop_first() + seq![c] + after);
    }
}

/// Where `c` does not occur, there is nothing after it.
pub proof fn lemma_after_first_absent(s: Seq<char>, c: char)
    requires
        !s.contains(c),
    ensures
        after_first(s, c) is None,
    decreases s.len(),
{
    if s.len() > 0 {
        assert(s[0] != c) by {
            assert(s.contains(s[0]));
        }
        assert(!s.drop_first().contains(c)) by {
            if s.drop_first().contains(c) {
                let k = choose|k: int| 0 <= k < s.drop_first().len() && s.drop_first()[k] == c;
                assert(s[k + 1] == c);
            }
        }
        lemma_after_first_absent(s.drop_first(), c);
    }
}

/// The bytes of an image given as a data URL or as bare base64: the base64
/// after the first comma, or the whole text where there is no comma.
pub open spec fn image_bytes_outcome(data_url: Seq<char>) -> Result<Seq<u8>, Seq<char>> {
    match after_first(data_url, ',') {
        Some(data) => match base64_standard_decode(encode_utf8(data)) {
            Some(bytes) => Ok(bytes),
            None => Err("图片 data URL 不是有效 base64"@),
        },
        None => match base64_standard_decode(encode_utf8(data_url)) {
            Some(bytes) => Ok(bytes),
            None => Err("图片数据不是有效 base64"@),
        },
    }
}

/// The bytes of an image given as a data URL or as bare base64.
pub fn decode_image_data_url(data_url: &str) -> (r: Result<Vec<u8>, String>)
    ensures
        match r {
            Ok(bytes) => image_bytes_outcome(data_url@) == Ok::<Seq<u8>, Seq<char>>(bytes@),
            Err(e) => image_bytes_outcome(data_url@) == Err::<Seq<u8>, Seq<char>>(e@),
        },
{
    match split_once_char(data_url, ',') {
        Some((before, data)) => {
            proof {
                lemma_after_first(before@, ',', data@);
            }
            match decode_base64(data.as_bytes()) {
                Some(bytes) => Ok(bytes),
                None => Err(owned("图片 data URL 不是有效 base64")),
            }
        },
        None => {
            proof {
                lemma_after_first_absent(data_url@, ',');
            }
            match decode_base64(data_url.as_bytes()) {
                Some(bytes) => Ok(bytes),
                None => Err(owned("图片数据不是有效 base64")),
            }
        },
    }
}

/// The file extension for a MIME type: `jpg` for JPEG, `webp` for WebP, else `png`.
pub open spec fn extension_for(mime_type: Seq<char>) -> Seq<char> {
    if contains_chars(mime_type, "jpeg"@) || contains_chars(mime_type, "jpg"@) {
        "jpg"@
    } else if contains_chars(mime_type, "webp"@) {
        "webp"@
    } else {
        "png"@
    }
}

/// An ASCII letter or digit, `-` or `_`: the characters a file stem keeps.
pub open spec fn is_stem_char(c: char) -> bool {
    ||| 'a' <= c <= 'z'
    ||| 'A' <= c <= 'Z'
    ||| '0' <= c <= '9'
    ||| c == '-'
    ||| c == '_'
}

/// `c`, or `-` in place of a character that a stem does not keep.
pub open spec fn stem_char(c: char) -> char {
    if is_stem_char(c) {
        c
    } else {
        '-'
    }
}

/// A file name with every character that a stem does not keep replaced by `-`.
pub open spec fn sanitized(name: Seq<char>) -> Seq<char> {
    name.map_values(|c: char| stem_char(c))
}

/// `s` without its leading dashes.
pub open spec fn trim_start_dashes(s: Seq<char>) -> Seq<char>
    decreases s.len(),
{
    if s.len() > 0 && s[0] == '-' {
        trim_start_dashes(s.drop_first())
    } else {
        s
    }
}

/// `s` without its trailing dashes.
pub open spec fn trim_end_dashes(s: Seq<char>) -> Seq<char>
    decreases s.len(),
{
    if s.len() > 0 && s.last() == '-' {
        trim_end_dashes(s.drop_last())
    } else {
        s
    }
}

/// `s` without dashes at either end.
pub open spec fn trim_dashes(s: Seq<char>) -> Seq<char> {
    trim_end_dashes(trim_start_dashes(s))
}

/// The stem of a saved file: the sanitized name without dashes at its
/// ends, or `myaitoimg-` and the time in milliseconds where that is empty.
pub open spec fn file_stem(name: Seq<char>, millis: nat) -> Seq<char> {
    let stem = trim_dashes(sanitized(name));
    if stem.len() == 0 {
        "myaitoimg-"@ + decimal(millis)
    } else {
        stem
    }
}

/// The name a file is saved under: the stem with the extension for its MIME
/// type appended, unless the stem already ends with it.
pub open spec fn safe_file_name_chars(name: Seq<char>, mime_type: Seq<char>, millis: nat) -> Seq<char> {
    let stem = file_stem(name, millis);
    let ext = extension_for(mime_type);
    if ("."@ + ext).is_suffix_of(stem) {
        stem
    } else {
        stem + "."@ + ext
    }
}

fn keeps(c: char) -> (r: bool)
    ensures
        r == is_stem_char(c),
{
    ('a' <= c && c <= 'z') || ('A' <= c && c <= 'Z') || ('0' <= c && c <= '9') || c == '-' || c == '_'
}

fn extension(mime_type: &str) -> (r: &'static str)
    ensures
        r@ == extension_for(mime_type@),
{
    if contains_str(mime_type, "jpeg") || contains_str(mime_type, "jpg") {
        "jpg"
    } else if contains_str(mime_type, "webp") {
        "webp"
    } else {
        "png"
    }
}

/// Leading dashes up to the first other character are what trimming drops.
pub proof fn lemma_trim_start_dashes(s: Seq<char>, k: int)
    requires
        0 <= k <= s.len(),
        forall|j: int| 0 <= j < k ==> s[j] == '-',
        k == s.len() || s[k] != '-',
    ensures
        trim_start_dashes(s) == s.skip(k),
    decreases k,
{
    if k == 0 {
        assert(s.skip(0) =~= s);
    } else {
        lemma_trim_start_dashes(s.drop_first(), k - 1);
        assert(s.drop_first().skip(k - 1) =~= s.skip(k));
    }
}

/// Trailing dashes after the last other character are what trimming drops.
pub proof fn lemma_trim_end_dashes(s: Seq<char>, k: int)
    requires
        0 <= k <= s.len(),
        forall|j: int| k <= j < s.len() ==> s[j] == '-',
        k == 0 || s[k - 1] != '-',
    ensures
        trim_end_dashes(s) == s.take(k),
    decreases s.len() - k,
{
    if k == s.len() {
        assert(s.take(k) =~= s);
    } else {
        lemma_trim_end_dashes(s.drop_last(), k);
        assert(s.drop_last().take(k) =~= s.take(k));
    }
}

/// The stem of a saved file, given the time in milliseconds.
fn stem_of(file_name: &str, millis: u128) -> (r: String)
    ensures
        r@ == file_stem(file_name@, millis as nat),
{
    let n = file_name.unicode_len();
    let mut chars: Vec<char> = Vec::new();
    let mut i: usize = 0;
    while i < n
        invariant
            n == file_name@.len(),
            i <= n,
            chars@ == sanitized(file_name@.take(i as int)),
        decreases n - i,
    {
        let c = file_name.get_char(i);
        chars.push(if keeps(c) { c } else { '-' });
        assert(chars@ =~= sanitized(file_name@.take(i + 1)));
        i = i + 1;
    }
    assert(file_name@.take(n as int) =~= file_name@);
    let ghost s = chars@;
    let mut start: usize = 0;
    while start < n && chars[start] == '-'
        invariant
            s == chars@,
            s.len() == n,
            start <= n,
            forall|j: int| 0 <= j < start ==> s[j] == '-',
        decreases n - start,
    {
        start = start + 1;
    }
    proof {
        lemma_trim_start_dashes(s, start as int);
    }
    let ghost t = s.skip(start as int);
    let mut end: usize = n;
    while end > start && chars[end - 1] == '-'
        invariant
            s == chars@,
            s.len() == n,
            start <= end <= n,
            t == s.skip(start as int),
            forall|j: int| end <= j < n ==> s[j] == '-',
        decreases end,
    {
        end = end - 1;
    }
    proof {
        lemma_trim_end_dashes(t, end - start);
    }
    let mut stem = String::new();
    let mut k: usize = start;
    while k < end
        invariant
            s == chars@,
            s.len() == n,
            start <= k <= end <= n,
            stem@ == s.subrange(start as int, k as int),
        decreases end - k,
    {
        push_char(&mut stem, chars[k]);
        assert(stem@ =~= s.subrange(start as int, k + 1));
        k = k + 1;
    }
    assert(t.take(end - start) =~= s.subrange(start as int, end as int));
    if stem.unicode_len() == 0 {
        let mut named = owned("myaitoimg-");
        push_decimal(&mut named, millis);
        named
    } else {
        stem
    }
}

/// The name a file is saved under, given the time in milliseconds that
/// names a file whose own name keeps no character.
pub fn safe_file_name_at(file_name: &str, mime_type: &str, millis: u128) -> (r: String)
    ensures
        r@ == safe_file_name_chars(file_name@, mime_type@, millis as nat),
{
    let ext = extension(mime_type);
    let stem = stem_of(file_name, millis);
    let mut suffix = owned(".");
    suffix.append(ext);
    if ends_with(stem.as_str(), suffix.as_str()) {
        stem
    } else {
        let mut name = stem;
        name.append(".");
        name.append(ext);
        name
    }
}

/// The name a file is saved under, using the clock for a file whose own
/// name keeps no character.
pub fn safe_file_name(file_name: &str, mime_type: &str) -> (r: String)
    ensures
        exists|millis: nat| r@ == safe_file_name_chars(file_name@, mime_type@, millis),
{
    let millis = match since_unix_epoch(&system_now()) {
        Some(d) => duration_millis(&d),
        None => 0,
    };
    safe_file_name_at(file_name, mime_type, millis)
}

} // verus!

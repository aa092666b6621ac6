//! Encoding detection on a sample of bytes.

use vstd::prelude::*;

use charset_normalizer_rs::from_bytes;

use crate::text::{ascii_lower, str_eq, to_ascii_lowercase, to_owned_string};

verus! {

/// Number of leading bytes of a file that detection looks at.
pub const SAMPLE_SIZE: usize = 64 * 1024;

/// The outcome of detecting the encoding of one sample.
#[derive(Debug, Clone, PartialEq, Eq)]
pub enum Detection {
    /// The sample is text in the named encoding (a lower-case name).
    Encoded(String),
    /// The sample was not classified.
    Skip(SkipReason),
}

/// Why a sample was not classified.
#[derive(Debug, Clone, PartialEq, Eq)]
pub enum SkipReason {
    /// The sample holds no bytes.
    Empty,
    /// The sample looks like binary content.
    Binary,
    /// The detector found no encoding.
    Unknown,
    /// The file could not be read; holds the error message.
    ReadError(String),
}

/// `utf_8`, as characters.
pub open spec fn name_utf_8_underscore() -> Seq<char> {
    seq!['u', 't', 'f', '_', '8']
}

/// `utf-8-sig`, as characters.
pub open spec fn name_utf_8_sig() -> Seq<char> {
    seq!['u', 't', 'f', '-', '8', '-', 's', 'i', 'g']
}

/// `gb18030`, as characters.
pub open spec fn name_gb18030() -> Seq<char> {
    seq!['g', 'b', '1', '8', '0', '3', '0']
}

/// `utf-8`, as characters.
pub open spec fn name_utf_8() -> Seq<char> {
    seq!['u', 't', 'f', '-', '8']
}

/// `gbk`, as characters.
pub open spec fn name_gbk() -> Seq<char> {
    seq!['g', 'b', 'k']
}

/// The reported form of an encoding name: lower case, with `utf_8` and `utf-8-sig`
/// reported as `utf-8` and `gb18030` reported as `gbk`.
pub open spec fn spec_normalize(name: Seq<char>) -> Seq<char> {
    let lower = ascii_lower(name);
    if lower == name_utf_8_underscore() || lower == name_utf_8_sig() {
        name_utf_8()
    } else if lower == name_gb18030() {
        name_gbk()
    } else {
        lower
    }
}

/// `gb18030`, in any ASCII case, is reported as `gbk`; `utf_8` and `utf-8-sig` as `utf-8`.
pub proof fn lemma_aliases_reported(name: Seq<char>)
    ensures
        ascii_lower(name) == name_gb18030() ==> spec_normalize(name) == name_gbk(),
        ascii_lower(name) == name_utf_8_sig() ==> spec_normalize(name) == name_utf_8(),
        ascii_lower(name) == name_utf_8_underscore() ==> spec_normalize(name) == name_utf_8(),
{
    if ascii_lower(name) == name_gb18030() {
        assert(name_gb18030()[0] != name_utf_8_underscore()[0]);
        assert(name_gb18030().len() != name_utf_8_sig().len());
    }
}

/// Reported names are in lower case, and reporting them again changes nothing.
pub proof fn lemma_reported_names_stable(name: Seq<char>)
    ensures
        ascii_lower(spec_normalize(name)) == spec_normalize(name),
        spec_normalize(spec_normalize(name)) == spec_normalize(name),
{
    let lower = ascii_lower(name);
    assert(ascii_lower(lower) =~= lower);
    assert(ascii_lower(name_utf_8()) =~= name_utf_8());
    assert(ascii_lower(name_gbk()) =~= name_gbk());
    assert(name_utf_8()[3] != name_utf_8_underscore()[3]);
    assert(name_utf_8().len() != name_utf_8_sig().len());
    assert(name_utf_8().len() != name_gb18030().len());
    assert(name_gbk().len() != name_utf_8_underscore().len());
    assert(name_gbk().len() != name_utf_8_sig().len());
    assert(name_gbk().len() != name_gb18030().len());
}

/// A name is reported as its lower case, except for exactly the aliases `utf_8` and
/// `utf-8-sig` (reported as `utf-8`) and `gb18030` (reported as `gbk`).
pub proof fn lemma_reported_name_is_lower_case(name: Seq<char>)
    ensures
        ascii_lower(name) != seq!['u', 't', 'f', '_', '8'] && ascii_lower(name) != seq![
            'u',
            't',
            'f',
            '-',
            '8',
            '-',
            's',
            'i',
            'g',
        ] && ascii_lower(name) != seq!['g', 'b', '1', '8', '0', '3', '0'] ==> spec_normalize(name)
            == ascii_lower(name),
        ascii_lower(name) == seq!['u', 't', 'f', '_', '8'] || ascii_lower(name) == seq![
            'u',
            't',
            'f',
            '-',
            '8',
            '-',
            's',
            'i',
            'g',
        ] ==> spec_normalize(name) == seq!['u', 't', 'f', '-', '8'],
        ascii_lower(name) == seq!['g', 'b', '1', '8', '0', '3', '0'] ==> spec_normalize(name)
            == seq!['g', 'b', 'k'],
{
}

/// Maps an encoding name to the form in which it is reported.
pub fn normalize_encoding_name(name: &str) -> (r: String)
    ensures
        r@ == spec_normalize(name@),
        ascii_lower(name@) != seq!['u', 't', 'f', '_', '8'] && ascii_lower(name@) != seq![
            'u',
            't',
            'f',
            '-',
            '8',
            '-',
            's',
            'i',
            'g',
        ] && ascii_lower(name@) != seq!['g', 'b', '1', '8', '0', '3', '0'] ==> r@ == ascii_lower(
            name@,
        ),
{
    proof {
        lemma_reported_name_is_lower_case(name@);
    }
    let lower = to_ascii_lowercase(name);
    proof {
        reveal_strlit("utf_8");
        reveal_strlit("utf-8-sig");
        reveal_strlit("gb18030");
        reveal_strlit("utf-8");
        reveal_strlit("gbk");
        assert("utf_8"@ =~= name_utf_8_underscore());
        assert("utf-8-sig"@ =~= name_utf_8_sig());
        assert("gb18030"@ =~= name_gb18030());
        assert("utf-8"@ =~= name_utf_8());
        assert("gbk"@ =~= name_gbk());
    }
    if str_eq(lower.as_str(), "utf_8") || str_eq(lower.as_str(), "utf-8-sig") {
        to_owned_string("utf-8")
    } else if str_eq(lower.as_str(), "gb18030") {
        to_owned_string("gbk")
    } else {
        lower
    }
}

/// Number of adjacent byte pairs `(d[k - 1], d[k])` with `0 < k <= last` that look like a
/// UTF-16LE code unit of an ASCII character (non-zero byte, then zero byte).
pub open spec fn le_pairs(d: Seq<u8>, last: int) -> int
    decreases last,
{
    if last <= 0 {
        0
    } else {
        le_pairs(d, last - 1) + if d[last] == 0 && d[last - 1] != 0 {
            1int
        } else {
            0int
        }
    }
}

/// Number of adjacent byte pairs `(d[k - 1], d[k])` with `0 < k <= last` that look like a
/// UTF-16BE code unit of an ASCII character (zero byte, then non-zero byte).
pub open spec fn be_pairs(d: Seq<u8>, last: int) -> int
    decreases last,
{
    if last <= 0 {
        0
    } else {
        be_pairs(d, last - 1) + if d[last - 1] == 0 && d[last] != 0 {
            1int
        } else {
            0int
        }
    }
}

/// Content is binary when it holds a zero byte, unless more than a quarter of its byte
/// pairs look like UTF-16 code units of ASCII characters in one byte order.
pub open spec fn spec_looks_binary(d: Seq<u8>) -> bool {
    let pairs = d.len() / 2;
    d.contains(0u8) && !(pairs > 0 && (le_pairs(d, d.len() - 1) > pairs / 4 || be_pairs(
        d,
        d.len() - 1,
    ) > pairs / 4))
}

/// The UTF-16LE evidence grows by one exactly at a non-zero byte followed by a zero byte: a
/// zero byte after a zero byte, and any non-zero byte, add nothing, so a run of zero bytes
/// counts once.
pub proof fn lemma_le_pairs_step(d: Seq<u8>, k: int)
    requires
        1 <= k < d.len(),
    ensures
        d[k] == 0 && d[k - 1] != 0 ==> le_pairs(d, k) == le_pairs(d, k - 1) + 1,
        d[k - 1] == 0 ==> le_pairs(d, k) == le_pairs(d, k - 1),
        d[k] != 0 ==> le_pairs(d, k) == le_pairs(d, k - 1),
        le_pairs(d, 0) == 0,
{
}

/// The UTF-16BE evidence grows by one exactly at a zero byte followed by a non-zero byte.
pub proof fn lemma_be_pairs_step(d: Seq<u8>, k: int)
    requires
        1 <= k < d.len(),
    ensures
        d[k - 1] == 0 && d[k] != 0 ==> be_pairs(d, k) == be_pairs(d, k - 1) + 1,
        d[k - 1] != 0 ==> be_pairs(d, k) == be_pairs(d, k - 1),
        d[k] == 0 ==> be_pairs(d, k) == be_pairs(d, k - 1),
        be_pairs(d, 0) == 0,
{
}

/// Content without a zero byte is never binary; content with one is binary exactly when
/// neither the UTF-16LE nor the UTF-16BE evidence exceeds a quarter of its byte pairs.
pub proof fn lemma_binary_verdict(d: Seq<u8>)
    ensures
        !d.contains(0u8) ==> !spec_looks_binary(d),
        d.contains(0u8) && le_pairs(d, d.len() - 1) <= (d.len() / 2) / 4 && be_pairs(d, d.len() - 1)
            <= (d.len() / 2) / 4 ==> spec_looks_binary(d),
        d.contains(0u8) && d.len() >= 2 && le_pairs(d, d.len() - 1) > (d.len() / 2) / 4
            ==> !spec_looks_binary(d),
        d.contains(0u8) && d.len() >= 2 && be_pairs(d, d.len() - 1) > (d.len() / 2) / 4
            ==> !spec_looks_binary(d),
{
}

proof fn lemma_pairs_bounded(d: Seq<u8>, last: int)
    ensures
        0 <= le_pairs(d, last) <= if last < 0 {
            0
        } else {
            last
        },
        0 <= be_pairs(d, last) <= if last < 0 {
            0
        } else {
            last
        },
    decreases last,
{
    if last > 0 {
        lemma_pairs_bounded(d, last - 1);
    }
}

fn looks_binary(data: &[u8]) -> (r: bool)
    ensures
        r == spec_looks_binary(data@),
{
    let n = data.len();
    let mut has_zero = false;
    let mut i: usize = 0;
    while i < n
        invariant
            n == data@.len(),
            i <= n,
            has_zero == exists|j: int| 0 <= j < i && data@[j] == 0u8,
        decreases n - i,
    {
        if data[i] == 0 {
            has_zero = true;
        }
        i = i + 1;
    }
    if !has_zero {
        assert(!data@.contains(0u8));
        return false;
    }
    assert(data@.contains(0u8));
    let mut le: usize = 0;
    let mut be: usize = 0;
    let mut k: usize = 1;
    while k < n
        invariant
            n == data@.len(),
            1 <= k <= n,
            le == le_pairs(data@, k - 1),
            be == be_pairs(data@, k - 1),
        decreases n - k,
    {
        proof {
            lemma_pairs_bounded(data@, k - 1);
        }
        if data[k] == 0 && data[k - 1] != 0 {
            le = le + 1;
        }
        if data[k - 1] == 0 && data[k] != 0 {
            be = be + 1;
        }
        k = k + 1;
    }
    let pairs = n / 2;
    if pairs > 0 && (le > pairs / 4 || be > pairs / 4) {
        return false;
    }
    true
}

/// Returns true when content looks like binary (not UTF-16 text).
pub fn is_binary_content(data: &[u8]) -> (r: bool)
    ensures
        r == spec_looks_binary(data@),
{
    looks_binary(data)
}

/// `UTF-8`, the `encoding_rs` name of UTF-8.
pub open spec fn codec_utf_8() -> Seq<char> {
    seq!['U', 'T', 'F', '-', '8']
}

/// `UTF-16LE`, the `encoding_rs` name of UTF-16 little endian.
pub open spec fn codec_utf_16le() -> Seq<char> {
    seq!['U', 'T', 'F', '-', '1', '6', 'L', 'E']
}

/// `UTF-16BE`, the `encoding_rs` name of UTF-16 big endian.
pub open spec fn codec_utf_16be() -> Seq<char> {
    seq!['U', 'T', 'F', '-', '1', '6', 'B', 'E']
}

/// The sample starts with the UTF-8 byte order mark.
pub open spec fn has_utf8_bom(d: Seq<u8>) -> bool {
    d.len() >= 3 && d[0] == 0xEFu8 && d[1] == 0xBBu8 && d[2] == 0xBFu8
}

/// The encoding a leading byte order mark announces, with the mark's length, as
/// `encoding_rs::Encoding::for_bom` gives it.
pub open spec fn spec_bom(d: Seq<u8>) -> Option<(Seq<char>, nat)> {
    if has_utf8_bom(d) {
        Some((codec_utf_8(), 3))
    } else if d.len() >= 2 && d[0] == 0xFFu8 && d[1] == 0xFEu8 {
        Some((codec_utf_16le(), 2))
    } else if d.len() >= 2 && d[0] == 0xFEu8 && d[1] == 0xFFu8 {
        Some((codec_utf_16be(), 2))
    } else {
        None
    }
}

/// `utf-16le`, as characters.
pub open spec fn name_utf_16le() -> Seq<char> {
    seq!['u', 't', 'f', '-', '1', '6', 'l', 'e']
}

/// `utf-16be`, as characters.
pub open spec fn name_utf_16be() -> Seq<char> {
    seq!['u', 't', 'f', '-', '1', '6', 'b', 'e']
}

/// The names announced by byte order marks are reported as `utf-8`, `utf-16le` and
/// `utf-16be`.
pub proof fn lemma_bom_names_reported()
    ensures
        spec_normalize(codec_utf_8()) == name_utf_8(),
        spec_normalize(codec_utf_16le()) == name_utf_16le(),
        spec_normalize(codec_utf_16be()) == name_utf_16be(),
{
    assert(ascii_lower(codec_utf_8()) =~= name_utf_8());
    assert(ascii_lower(codec_utf_16le()) =~= name_utf_16le());
    assert(ascii_lower(codec_utf_16be()) =~= name_utf_16be());
    assert(name_utf_8()[3] != name_utf_8_underscore()[3]);
    assert(name_utf_8()[0] != name_gb18030()[0]);
    assert(name_utf_16le()[4] != name_utf_8_sig()[4]);
    assert(name_utf_16be()[4] != name_utf_8_sig()[4]);
}

/// The encoding announced by a leading byte order mark, and the mark's length.
pub fn bom_encoding(data: &[u8]) -> (r: Option<(&'static str, usize)>)
    ensures
        r is Some == spec_bom(data@) is Some,
        r matches Some((name, len)) ==> spec_bom(data@) == Some((name@, len as nat)),
{
    proof {
        reveal_strlit("UTF-8");
        reveal_strlit("UTF-16LE");
        reveal_strlit("UTF-16BE");
        assert("UTF-8"@ =~= codec_utf_8());
        assert("UTF-16LE"@ =~= codec_utf_16le());
        assert("UTF-16BE"@ =~= codec_utf_16be());
    }
    let n = data.len();
    if n >= 3 && data[0] == 0xEF && data[1] == 0xBB && data[2] == 0xBF {
        Some(("UTF-8", 3))
    } else if n >= 2 && data[0] == 0xFF && data[1] == 0xFE {
        Some(("UTF-16LE", 2))
    } else if n >= 2 && data[0] == 0xFE && data[1] == 0xFF {
        Some(("UTF-16BE", 2))
    } else {
        None
    }
}

/// `charset_normalizer_rs` may name the encoding `name` as its best guess for `data`.
pub uninterp spec fn detector_may_report(data: Seq<u8>, name: Seq<char>) -> bool;

/// The best guess of `charset_normalizer_rs` for `data`: `from_bytes` with default
/// settings, then `CharsetMatches::get_best` and `CharsetMatch::encoding` of the match.
///
/// Trusted: a guess is one the detector may report for exactly these bytes, and when none
/// comes back the detector has none to report for them. Whether the ranked list is empty is
/// decided by strict decoding, the mess ratios and the fallbacks, which use no seeded hash
/// map; the maps seeded anew in each process (the coherence tables) only change the order of
/// the list. Which of the possible guesses comes first is therefore not stated.
#[verifier::external_body]
fn detector_guess(data: &[u8]) -> (r: Option<String>)
    ensures
        r matches Some(g) ==> detector_may_report(data@, g@),
        r is None ==> forall|g: Seq<char>| !#[trigger] detector_may_report(data@, g),
{
    match from_bytes(data, None) {
        Ok(matches) => match matches.get_best() {
            Some(best) => Some(best.encoding().to_string()),
            None => None,
        },
        Err(_) => None,
    }
}

/// The detection reported for the detector's best guess (`None` when it had none).
pub fn detection_from_guess(guess: Option<&str>) -> (r: Detection)
    ensures
        guess is None ==> r == Detection::Skip(SkipReason::Unknown),
        guess matches Some(g) ==> (r matches Detection::Encoded(s) && s@ == spec_normalize(g@)),
        guess matches Some(g) ==> (ascii_lower(g@) != seq!['u', 't', 'f', '_', '8'] && ascii_lower(
            g@,
        ) != seq!['u', 't', 'f', '-', '8', '-', 's', 'i', 'g'] && ascii_lower(g@) != seq![
            'g',
            'b',
            '1',
            '8',
            '0',
            '3',
            '0',
        ] ==> (r matches Detection::Encoded(s) && s@ == ascii_lower(g@))),
{
    match guess {
        Some(g) => Detection::Encoded(normalize_encoding_name(g)),
        None => Detection::Skip(SkipReason::Unknown),
    }
}

/// What holds of a detection that the statistical detector decided on `data`: no encoding
/// found, or the reported form of a guess the detector may give for `data`.
pub open spec fn guessed(data: Seq<u8>, r: Detection) -> bool {
    r == Detection::Skip(SkipReason::Unknown) || (r matches Detection::Encoded(s) && exists|
        g: Seq<char>,
    | detector_may_report(data, g) && s@ == spec_normalize(g))
}

/// Detects the encoding of a sample of bytes.
///
/// An empty sample is skipped; a byte order mark decides the encoding; content that looks
/// binary is skipped; otherwise `charset_normalizer_rs` is asked for its best guess.
pub fn detect_bytes(data: &[u8]) -> (r: Detection)
    ensures
        data@.len() == 0 ==> r == Detection::Skip(SkipReason::Empty),
        spec_bom(data@) matches Some((name, _)) ==> (r matches Detection::Encoded(s) && s@
            == spec_normalize(name)),
        has_utf8_bom(data@) ==> (r matches Detection::Encoded(s) && s@ == name_utf_8()),
        data@.len() > 0 && spec_bom(data@) is None && spec_looks_binary(data@) ==> r
            == Detection::Skip(SkipReason::Binary),
        data@.len() > 0 && spec_bom(data@) is None && !spec_looks_binary(data@) ==> guessed(data@, r),
        data@.len() > 0 && spec_bom(data@) is None && !spec_looks_binary(data@) && (exists|g: Seq<
            char,
        >| #[trigger] detector_may_report(data@, g)) ==> r is Encoded,
{
    proof {
        lemma_bom_names_reported();
    }
    if data.len() == 0 {
        return Detection::Skip(SkipReason::Empty);
    }
    if let Some((name, _bom_len)) = bom_encoding(data) {
        return Detection::Encoded(normalize_encoding_name(name));
    }
    if looks_binary(data) {
        return Detection::Skip(SkipReason::Binary);
    }
    match detector_guess(data) {
        Some(g) => {
            let r = detection_from_guess(Some(g.as_str()));
            assert(detector_may_report(data@, g@));
            r
        },
        None => detection_from_guess(None),
    }
}

/// The detection for the outcome of reading a file's first [`SAMPLE_SIZE`] bytes: a read
/// error is reported with its message, a sample is detected.
pub fn detect_sample(read: Result<Vec<u8>, String>) -> (r: Detection)
    ensures
        read matches Err(msg) ==> r == Detection::Skip(SkipReason::ReadError(msg)),
        read matches Ok(buf) ==> (buf@.len() == 0 ==> r == Detection::Skip(SkipReason::Empty)),
        read matches Ok(buf) ==> (spec_bom(buf@) matches Some((name, _)) ==> (
        r matches Detection::Encoded(s) && s@ == spec_normalize(name))),
        read matches Ok(buf) ==> (buf@.len() > 0 && spec_bom(buf@) is None && spec_looks_binary(
            buf@,
        ) ==> r == Detection::Skip(SkipReason::Binary)),
        read matches Ok(buf) ==> (buf@.len() > 0 && spec_bom(buf@) is None
            && !spec_looks_binary(buf@) ==> guessed(buf@, r)),
        read matches Ok(buf) ==> (buf@.len() > 0 && spec_bom(buf@) is None
            && !spec_looks_binary(buf@) && (exists|g: Seq<char>| #[trigger] detector_may_report(
            buf@,
            g,
        )) ==> r is Encoded),
{
    match read {
        Ok(buf) => detect_bytes(buf.as_slice()),
        Err(msg) => Detection::Skip(SkipReason::ReadError(msg)),
    }
}

} // verus!

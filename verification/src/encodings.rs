//! Supported and planned character encodings, and the resolution of an
//! encoding name to an `encoding_rs` codec.

use vstd::prelude::*;

use encoding_rs::Encoding;

use crate::text::{
    ascii_lower, lemma_lex_irreflexive, lemma_lex_total, lemma_lex_trans, lex_less, str_eq,
    str_less, to_ascii_lowercase, to_owned_string,
};
use vstd::utf8::encode_utf8;

verus! {

/// Encodings that detection can report and conversion accepts (WHATWG / IANA names).
pub const SUPPORTED: [&'static str; 38] = [
    "utf-8",
    "utf-16le",
    "utf-16be",
    "gbk",
    "big5",
    "shift_jis",
    "euc-jp",
    "euc-kr",
    "iso-2022-jp",
    "koi8-r",
    "koi8-u",
    "windows-1251",
    "x-mac-cyrillic",
    "iso-8859-2",
    "iso-8859-3",
    "iso-8859-4",
    "iso-8859-5",
    "iso-8859-6",
    "iso-8859-7",
    "iso-8859-8",
    "iso-8859-8-i",
    "iso-8859-10",
    "iso-8859-13",
    "iso-8859-14",
    "iso-8859-15",
    "iso-8859-16",
    "windows-1250",
    "windows-1252",
    "windows-1253",
    "windows-1254",
    "windows-1255",
    "windows-1256",
    "windows-1257",
    "windows-1258",
    "ibm866",
    "windows-874",
    "macintosh",
    "ascii",
];

/// Encoding names that are reserved for later releases; neither detected nor converted.
pub const PLANNED: [&'static str; 9] = [
    "tis-620",
    "cp437",
    "cp850",
    "cp932",
    "gb2312",
    "hz-gb-2312",
    "utf-32le",
    "utf-32be",
    "utf-7",
];

/// Members of the "Unicode" documentation group.
pub const UNICODE_GROUP: [&'static str; 3] = [
    "utf-8",
    "utf-16le",
    "utf-16be",
];

/// Members of the "East Asian" documentation group.
pub const EAST_ASIAN_GROUP: [&'static str; 6] = [
    "gbk",
    "big5",
    "shift_jis",
    "euc-jp",
    "euc-kr",
    "iso-2022-jp",
];

/// Members of the "Cyrillic" documentation group.
pub const CYRILLIC_GROUP: [&'static str; 4] = [
    "koi8-r",
    "koi8-u",
    "windows-1251",
    "x-mac-cyrillic",
];

/// Members of the "ISO 8859" documentation group.
pub const ISO_8859_GROUP: [&'static str; 13] = [
    "iso-8859-2",
    "iso-8859-3",
    "iso-8859-4",
    "iso-8859-5",
    "iso-8859-6",
    "iso-8859-7",
    "iso-8859-8",
    "iso-8859-8-i",
    "iso-8859-10",
    "iso-8859-13",
    "iso-8859-14",
    "iso-8859-15",
    "iso-8859-16",
];

/// Members of the "Windows" documentation group.
pub const WINDOWS_GROUP: [&'static str; 9] = [
    "windows-1250",
    "windows-1252",
    "windows-1253",
    "windows-1254",
    "windows-1255",
    "windows-1256",
    "windows-1257",
    "windows-1258",
    "windows-874",
];

/// Members of the "Other" documentation group.
pub const OTHER_GROUP: [&'static str; 3] = [
    "ibm866",
    "macintosh",
    "ascii",
];

/// The character sequences of a list of names.
pub open spec fn name_views(names: Seq<&'static str>) -> Seq<Seq<char>> {
    names.map_values(|s: &'static str| s@)
}

/// Labels of the documentation groups, in order.
pub const GROUP_LABELS: [&'static str; 6] = [
    "Unicode",
    "East Asian",
    "Cyrillic",
    "ISO 8859",
    "Windows",
    "Other",
];

/// The member names of documentation group `g` (in the order of [`GROUP_LABELS`]).
pub open spec fn group_names(g: int) -> Seq<Seq<char>> {
    if g == 0 {
        name_views(UNICODE_GROUP@)
    } else if g == 1 {
        name_views(EAST_ASIAN_GROUP@)
    } else if g == 2 {
        name_views(CYRILLIC_GROUP@)
    } else if g == 3 {
        name_views(ISO_8859_GROUP@)
    } else if g == 4 {
        name_views(WINDOWS_GROUP@)
    } else {
        name_views(OTHER_GROUP@)
    }
}

/// A copy of a list of names as a vector.
fn names_to_vec<const N: usize>(names: [&'static str; N]) -> (r: Vec<&'static str>)
    ensures
        r@ == names@,
{
    let mut r: Vec<&'static str> = Vec::new();
    let mut i: usize = 0;
    while i < N
        invariant
            i <= N,
            N == names@.len(),
            r@ == names@.take(i as int),
        decreases N - i,
    {
        r.push(names[i]);
        i = i + 1;
        assert(r@ =~= names@.take(i as int));
    }
    assert(names@.take(N as int) =~= names@);
    r
}

/// The documentation groups, each a label with its member encodings.
pub fn groups() -> (r: Vec<(&'static str, Vec<&'static str>)>)
    ensures
        r@.len() == GROUP_LABELS@.len(),
        forall|g: int| 0 <= g < r@.len() ==> r@[g].0 == GROUP_LABELS@[g]
            && name_views(#[trigger] r@[g].1@) == group_names(g),
{
    let mut r: Vec<(&'static str, Vec<&'static str>)> = Vec::new();
    r.push((GROUP_LABELS[0], names_to_vec(UNICODE_GROUP)));
    r.push((GROUP_LABELS[1], names_to_vec(EAST_ASIAN_GROUP)));
    r.push((GROUP_LABELS[2], names_to_vec(CYRILLIC_GROUP)));
    r.push((GROUP_LABELS[3], names_to_vec(ISO_8859_GROUP)));
    r.push((GROUP_LABELS[4], names_to_vec(WINDOWS_GROUP)));
    r.push((GROUP_LABELS[5], names_to_vec(OTHER_GROUP)));
    r
}

/// The names of [`SUPPORTED`], as character sequences.
pub open spec fn supported_names() -> Seq<Seq<char>> {
    name_views(SUPPORTED@)
}

/// The names of [`PLANNED`], as character sequences.
pub open spec fn planned_names() -> Seq<Seq<char>> {
    name_views(PLANNED@)
}

/// A name is supported when its ASCII lower-case form is one of [`SUPPORTED`].
pub open spec fn spec_is_supported(name: Seq<char>) -> bool {
    supported_names().contains(ascii_lower(name))
}

/// Whether `name` (in any ASCII case) is a supported encoding.
pub fn is_supported(name: &str) -> (r: bool)
    ensures
        r == spec_is_supported(name@),
{
    let normalized = to_ascii_lowercase(name);
    let mut i: usize = 0;
    while i < SUPPORTED.len()
        invariant
            normalized@ == ascii_lower(name@),
            i <= SUPPORTED@.len(),
            forall|j: int| 0 <= j < i ==> supported_names()[j] != normalized@,
        decreases SUPPORTED@.len() - i,
    {
        if str_eq(normalized.as_str(), SUPPORTED[i]) {
            assert(supported_names()[i as int] == normalized@);
            return true;
        }
        i = i + 1;
    }
    assert(!supported_names().contains(normalized@)) by {
        if supported_names().contains(normalized@) {
            let j = choose|j: int| 0 <= j < supported_names().len() && supported_names()[j] == normalized@;
            assert(supported_names()[j] != normalized@);
        }
    }
    false
}

/// Why an encoding name could not be resolved.
#[derive(Debug, Clone, PartialEq, Eq)]
pub enum EncodingError {
    /// The name is not one of [`SUPPORTED`]; holds the lower-cased name.
    Unsupported(String),
    /// The name is supported but `encoding_rs` knows no encoding for it; holds the lower-cased name.
    Unresolvable(String),
}

/// The message text of an error.
pub open spec fn encoding_error_text(e: EncodingError) -> Seq<char> {
    match e {
        EncodingError::Unsupported(name) => seq!['u', 'n', 's', 'u', 'p', 'p', 'o', 'r', 't', 'e', 'd', ' ', 'e', 'n', 'c', 'o', 'd', 'i', 'n', 'g', ':', ' '] + name@,
        EncodingError::Unresolvable(name) => seq!['u', 'n', 'r', 'e', 's', 'o', 'l', 'v', 'a', 'b', 'l', 'e', ' ', 'e', 'n', 'c', 'o', 'd', 'i', 'n', 'g', ':', ' '] + name@,
    }
}

impl EncodingError {
    /// The human-readable message of this error.
    pub fn message(&self) -> (r: String)
        ensures
            r@ == encoding_error_text(*self),
    {
        let (prefix, name) = match self {
            EncodingError::Unsupported(name) => ("unsupported encoding: ", name),
            EncodingError::Unresolvable(name) => ("unresolvable encoding: ", name),
        };
        proof {
            reveal_strlit("unsupported encoding: ");
            reveal_strlit("unresolvable encoding: ");
        }
        let mut r = to_owned_string(prefix);
        crate::text::append_str(&mut r, name.as_str());
        r
    }
}

#[verifier::external_type_specification]
#[verifier::external_body]
pub struct ExEncoding(Encoding);

/// A character encoding of `encoding_rs`, together with its canonical name.
#[derive(Clone, Copy)]
pub struct Codec {
    encoding: &'static Encoding,
    name: &'static str,
}

impl Codec {
    /// The canonical `encoding_rs` name of this codec (such as `UTF-8` or `GBK`).
    pub closed spec fn spec_name(&self) -> Seq<char> {
        self.name@
    }

    /// The canonical `encoding_rs` name of this codec.
    pub fn name(&self) -> (r: &'static str)
        ensures
            r@ == self.spec_name(),
    {
        self.name
    }
}

/// The canonical name `encoding_rs` gives the encoding `Encoding::for_label` finds for `label`
/// (`None` where the label is unknown).
pub uninterp spec fn whatwg_encoding_name(label: Seq<u8>) -> Option<Seq<char>>;

/// The text `Encoding::decode` produces for the encoding named `name` on `input`, and whether
/// it replaced malformed input.
pub uninterp spec fn whatwg_decode(name: Seq<char>, input: Seq<u8>) -> (Seq<char>, bool);

/// The bytes `Encoding::encode` produces for the encoding named `name` on `text`, and whether
/// it replaced unmappable characters.
pub uninterp spec fn whatwg_encode(name: Seq<char>, text: Seq<char>) -> (Seq<u8>, bool);

/// The canonical name of UTF-8 in `encoding_rs`.
pub open spec fn utf8_codec_name() -> Seq<char> {
    seq!['U', 'T', 'F', '-', '8']
}

/// The label `utf-8`, as bytes.
pub open spec fn utf8_label() -> Seq<u8> {
    seq![0x75u8, 0x74u8, 0x66u8, 0x2du8, 0x38u8]
}

/// The label is the UTF-8 form of a supported name.
pub open spec fn is_supported_label(label: Seq<u8>) -> bool {
    exists|i: int| 0 <= i < supported_names().len() && label == encode_utf8(#[trigger] supported_names()[i])
}

/// Resolves a label with `encoding_rs::Encoding::for_label`.
///
/// Trusted: the result is what `for_label` returns, named by `whatwg_encoding_name`; every
/// supported name is a label of the crate's table (`LABELS_SORTED`), so it resolves; and the
/// label `utf-8` resolves to the encoding named `UTF-8` (as the crate's own documentation
/// example shows). The codec keeps the found encoding and its `Encoding::name`.
#[verifier::external_body]
fn codec_for_label(label: &[u8]) -> (r: Option<Codec>)
    ensures
        r.is_some() == whatwg_encoding_name(label@).is_some(),
        is_supported_label(label@) ==> r.is_some(),
        r.is_some() ==> whatwg_encoding_name(label@) == Some(r.unwrap().spec_name()),
        label@ == utf8_label() ==> r.is_some() && r.unwrap().spec_name() == utf8_codec_name(),
{
    match Encoding::for_label(label) {
        Some(encoding) => Some(Codec { encoding, name: encoding.name() }),
        None => None,
    }
}

/// The bytes that decoding as UTF-8 reads as UTF-8: the input without a leading UTF-8 byte
/// order mark; `None` when the input starts with a UTF-16 byte order mark, which switches
/// decoding to UTF-16.
pub open spec fn utf8_decoded_part(input: Seq<u8>) -> Option<Seq<u8>> {
    if crate::detect::has_utf8_bom(input) {
        Some(input.skip(3))
    } else if crate::detect::spec_bom(input) is None {
        Some(input)
    } else {
        None
    }
}

/// Decodes `input` with `encoding_rs::Encoding::decode` (which also honours a leading BOM).
///
/// Trusted: the decoded text and the error flag are `whatwg_decode` of the codec's name and
/// the input. For UTF-8 the source strips a UTF-8 byte order mark and, when no UTF-16 byte
/// order mark switches the encoding, reports an error exactly when the rest is not valid
/// UTF-8, and otherwise returns the rest as text.
#[verifier::external_body]
pub(crate) fn decode_with(codec: &Codec, input: &[u8]) -> (r: (String, bool))
    ensures
        (r.0@, r.1) == whatwg_decode(codec.spec_name(), input@),
        codec.spec_name() == utf8_codec_name() ==> (utf8_decoded_part(input@) matches Some(body)
            ==> (r.1 == !vstd::utf8::valid_utf8(body) && (vstd::utf8::valid_utf8(body) ==> r.0@
            == vstd::utf8::decode_utf8(body)))),
{
    let (text, _, had_errors) = codec.encoding.decode(input);
    (text.into_owned(), had_errors)
}

/// Encodes `text` with `encoding_rs::Encoding::encode`.
///
/// Trusted: the bytes and the error flag are `whatwg_encode` of the codec's name and the
/// text; for UTF-8 the source returns the text's own UTF-8 bytes and no error.
#[verifier::external_body]
pub(crate) fn encode_with(codec: &Codec, text: &str) -> (r: (Vec<u8>, bool))
    ensures
        (r.0@, r.1) == whatwg_encode(codec.spec_name(), text@),
        codec.spec_name() == utf8_codec_name() ==> r.0@ == encode_utf8(text@) && !r.1,
{
    let (bytes, _, had_errors) = codec.encoding.encode(text);
    (bytes.into_owned(), had_errors)
}

/// The label handed to `encoding_rs` for a name: its lower-cased UTF-8 bytes.
pub open spec fn lookup_label(name: Seq<char>) -> Seq<u8> {
    encode_utf8(ascii_lower(name))
}

/// Resolves a supported encoding name (in any ASCII case) to an `encoding_rs` codec.
pub fn lookup_encoding(name: &str) -> (r: Result<Codec, EncodingError>)
    ensures
        !spec_is_supported(name@) ==> (r matches Err(EncodingError::Unsupported(n)) && n@
            == ascii_lower(name@)),
        spec_is_supported(name@) && whatwg_encoding_name(lookup_label(name@)) is None ==> (
        r matches Err(EncodingError::Unresolvable(n)) && n@ == ascii_lower(name@)),
        spec_is_supported(name@) && whatwg_encoding_name(lookup_label(name@)) is Some ==> (
        r matches Ok(c) && whatwg_encoding_name(lookup_label(name@)) == Some(c.spec_name())),
        spec_is_supported(name@) ==> r is Ok,
        ascii_lower(name@) == seq!['u', 't', 'f', '-', '8'] ==> (r matches Ok(c) && c.spec_name()
            == utf8_codec_name()),
{
    let normalized = to_ascii_lowercase(name);
    if !is_supported(normalized.as_str()) {
        proof {
            lemma_ascii_lower_idempotent(name@);
            if ascii_lower(name@) == seq!['u', 't', 'f', '-', '8'] {
                lemma_utf8_supported();
            }
        }
        return Err(EncodingError::Unsupported(normalized));
    }
    proof {
        lemma_ascii_lower_idempotent(name@);
        if ascii_lower(name@) == seq!['u', 't', 'f', '-', '8'] {
            vstd::utf8::is_ascii_chars_encode_utf8(seq!['u', 't', 'f', '-', '8']);
            assert(encode_utf8(seq!['u', 't', 'f', '-', '8']) =~= utf8_label());
        }
        let i = choose|i: int| 0 <= i < supported_names().len() && supported_names()[i] == ascii_lower(name@);
        assert(lookup_label(name@) == encode_utf8(supported_names()[i]));
        assert(is_supported_label(lookup_label(name@)));
    }
    match codec_for_label(normalized.as_str().as_bytes()) {
        Some(codec) => Ok(codec),
        None => Err(EncodingError::Unresolvable(normalized)),
    }
}

/// Lower-casing twice is lower-casing once.
pub proof fn lemma_ascii_lower_idempotent(s: Seq<char>)
    ensures
        ascii_lower(ascii_lower(s)) == ascii_lower(s),
{
    assert(ascii_lower(ascii_lower(s)) =~= ascii_lower(s));
}

/// An element is in `s.push(a)` exactly when it is `a` or in `s`.
pub proof fn lemma_push_contains<T>(s: Seq<T>, a: T, n: T)
    ensures
        s.push(a).contains(n) <==> (s.contains(n) || n == a),
{
    if s.push(a).contains(n) {
        let k = choose|k: int| 0 <= k < s.push(a).len() && s.push(a)[k] == n;
        if k < s.len() {
            assert(s[k] == n);
        }
    }
    if s.contains(n) {
        let k = choose|k: int| 0 <= k < s.len() && s[k] == n;
        assert(s.push(a)[k] == n);
    }
    if n == a {
        assert(s.push(a)[s.len() as int] == n);
    }
}

/// Every element comes strictly before every later one.
pub open spec fn strictly_sorted(s: Seq<Seq<char>>) -> bool {
    forall|i: int, j: int| 0 <= i < j < s.len() ==> lex_less(s[i], s[j])
}

/// Inserts `x` into the sorted list `v` unless it is already there.
fn insert_sorted_unique(v: &mut Vec<&'static str>, x: &'static str)
    requires
        strictly_sorted(name_views(old(v)@)),
    ensures
        strictly_sorted(name_views(final(v)@)),
        forall|n: Seq<char>| name_views(final(v)@).contains(n) <==> (name_views(old(v)@).contains(n)
            || n == x@),
{
    let ghost old_views = name_views(v@);
    let n = v.len();
    let mut p: usize = 0;
    while p < n && str_less(v[p], x)
        invariant
            n == v@.len(),
            v@ == old(v)@,
            p <= n,
            forall|j: int| 0 <= j < p ==> lex_less(#[trigger] name_views(v@)[j], x@),
        decreases n - p,
    {
        p = p + 1;
    }
    if p < n && str_eq(v[p], x) {
        assert(name_views(v@)[p as int] == x@);
        return;
    }
    proof {
        if p < n {
            lemma_lex_total(name_views(v@)[p as int], x@);
        }
    }
    v.insert(p, x);
    let ghost new_views = name_views(v@);
    assert(new_views =~= old_views.insert(p as int, x@));
    assert forall|i: int, j: int| 0 <= i < j < new_views.len() implies lex_less(new_views[i], new_views[j]) by {
        if j < p {
        } else if j == p {
        } else if i < p {
            assert(lex_less(x@, old_views[j - 1])) by {
                if j - 1 > p {
                    lemma_lex_trans(x@, old_views[p as int], old_views[j - 1]);
                }
            }
            lemma_lex_trans(new_views[i], x@, new_views[j]);
        } else if i == p {
            if j > p + 1 {
                lemma_lex_trans(x@, old_views[p as int], old_views[j - 1]);
            }
        } else {
        }
    }
    assert forall|m: Seq<char>| new_views.contains(m) <==> (old_views.contains(m) || m == x@) by {
        if new_views.contains(m) {
            let k = choose|k: int| 0 <= k < new_views.len() && new_views[k] == m;
            if k < p {
                assert(old_views[k] == m);
            } else if k > p {
                assert(old_views[k - 1] == m);
            }
        }
        if old_views.contains(m) {
            let k = choose|k: int| 0 <= k < old_views.len() && old_views[k] == m;
            if k < p {
                assert(new_views[k] == m);
            } else {
                assert(new_views[k + 1] == m);
            }
        }
        if m == x@ {
            assert(new_views[p as int] == m);
        }
    }
}

/// All valid encoding names (supported and planned), sorted and without repetition.
pub fn all_names() -> (r: Vec<&'static str>)
    ensures
        strictly_sorted(name_views(r@)),
        forall|n: Seq<char>| name_views(r@).contains(n) <==> (supported_names().contains(n)
            || planned_names().contains(n)),
        r@.len() == SUPPORTED@.len() + PLANNED@.len(),
{
    let mut names: Vec<&'static str> = Vec::new();
    let mut i: usize = 0;
    while i < SUPPORTED.len()
        invariant
            i <= SUPPORTED@.len(),
            strictly_sorted(name_views(names@)),
            forall|n: Seq<char>| name_views(names@).contains(n) <==> supported_names().take(i as int).contains(n),
        decreases SUPPORTED@.len() - i,
    {
        let ghost before = name_views(names@);
        insert_sorted_unique(&mut names, SUPPORTED[i]);
        proof {
            assert(supported_names().take(i + 1) =~= supported_names().take(i as int).push(SUPPORTED@[i as int]@));
            assert forall|n: Seq<char>| supported_names().take(i + 1).contains(n) <==> (
            supported_names().take(i as int).contains(n) || n == SUPPORTED@[i as int]@) by {
                lemma_push_contains(supported_names().take(i as int), SUPPORTED@[i as int]@, n);
            }
            assert forall|n: Seq<char>| name_views(names@).contains(n) <==> supported_names().take(i + 1).contains(n) by {
                assert(before.contains(n) <==> supported_names().take(i as int).contains(n));
            }
        }
        i = i + 1;
    }
    assert(supported_names().take(SUPPORTED@.len() as int) =~= supported_names());
    let mut k: usize = 0;
    while k < PLANNED.len()
        invariant
            k <= PLANNED@.len(),
            strictly_sorted(name_views(names@)),
            forall|n: Seq<char>| name_views(names@).contains(n) <==> (supported_names().contains(n)
                || planned_names().take(k as int).contains(n)),
        decreases PLANNED@.len() - k,
    {
        let ghost before = name_views(names@);
        let ghost k0 = k as int;
        insert_sorted_unique(&mut names, PLANNED[k]);
        k = k + 1;
        proof {
            assert(planned_names().take(k as int) =~= planned_names().take(k0).push(PLANNED@[k0]@));
            assert forall|n: Seq<char>| name_views(names@).contains(n) <==> (supported_names().contains(n)
                || planned_names().take(k as int).contains(n)) by {
                lemma_push_contains(planned_names().take(k0), PLANNED@[k0]@, n);
                assert(before.contains(n) <==> (supported_names().contains(n) || planned_names().take(k0).contains(n)));
            }
        }
    }
    assert(planned_names().take(PLANNED@.len() as int) =~= planned_names());
    assert forall|n: Seq<char>| name_views(names@).contains(n) <==> (supported_names().contains(n)
        || planned_names().contains(n)) by {
        assert(name_views(names@).contains(n) <==> (supported_names().contains(n)
            || planned_names().take(k as int).contains(n)));
    }
    proof {
        lemma_all_names_count(name_views(names@));
    }
    names
}

/// A strictly sorted list of exactly the supported and planned names holds each of them once.
proof fn lemma_all_names_count(a: Seq<Seq<char>>)
    requires
        strictly_sorted(a),
        forall|n: Seq<char>| a.contains(n) <==> (supported_names().contains(n) || planned_names().contains(n)),
    ensures
        a.len() == SUPPORTED@.len() + PLANNED@.len(),
{
    assert(a.no_duplicates()) by {
        assert forall|i: int, j: int| 0 <= i < a.len() && 0 <= j < a.len() && i != j implies a[i] != a[j] by {
            lemma_lex_irreflexive(a[i]);
        }
    }
    lemma_listed_names_distinct();
    assert forall|n: Seq<char>| a.to_set().contains(n) <==> listed_names().to_set().contains(n) by {
        if supported_names().contains(n) {
            let i = choose|i: int| 0 <= i < supported_names().len() && supported_names()[i] == n;
            assert(listed_names()[i] == n);
        }
        if planned_names().contains(n) {
            let i = choose|i: int| 0 <= i < planned_names().len() && planned_names()[i] == n;
            assert(listed_names()[supported_names().len() + i] == n);
        }
        if listed_names().contains(n) {
            let i = choose|i: int| 0 <= i < listed_names().len() && listed_names()[i] == n;
            if i < supported_names().len() {
                assert(supported_names()[i] == n);
            } else {
                assert(planned_names()[i - supported_names().len()] == n);
            }
        }
    }
    assert(a.to_set() =~= listed_names().to_set());
    a.unique_seq_to_set();
    listed_names().unique_seq_to_set();
}

/// The characters of each supported and planned name.
proof fn lemma_name_contents()
    ensures
        supported_names()[0] == seq!['u', 't', 'f', '-', '8'],
        supported_names()[1] == seq!['u', 't', 'f', '-', '1', '6', 'l', 'e'],
        supported_names()[2] == seq!['u', 't', 'f', '-', '1', '6', 'b', 'e'],
        supported_names()[3] == seq!['g', 'b', 'k'],
        supported_names()[4] == seq!['b', 'i', 'g', '5'],
        supported_names()[5] == seq!['s', 'h', 'i', 'f', 't', '_', 'j', 'i', 's'],
        supported_names()[6] == seq!['e', 'u', 'c', '-', 'j', 'p'],
        supported_names()[7] == seq!['e', 'u', 'c', '-', 'k', 'r'],
        supported_names()[8] == seq!['i', 's', 'o', '-', '2', '0', '2', '2', '-', 'j', 'p'],
        supported_names()[9] == seq!['k', 'o', 'i', '8', '-', 'r'],
        supported_names()[10] == seq!['k', 'o', 'i', '8', '-', 'u'],
        supported_names()[11] == seq!['w', 'i', 'n', 'd', 'o', 'w', 's', '-', '1', '2', '5', '1'],
        supported_names()[12] == seq!['x', '-', 'm', 'a', 'c', '-', 'c', 'y', 'r', 'i', 'l', 'l', 'i', 'c'],
        supported_names()[13] == seq!['i', 's', 'o', '-', '8', '8', '5', '9', '-', '2'],
        supported_names()[14] == seq!['i', 's', 'o', '-', '8', '8', '5', '9', '-', '3'],
        supported_names()[15] == seq!['i', 's', 'o', '-', '8', '8', '5', '9', '-', '4'],
        supported_names()[16] == seq!['i', 's', 'o', '-', '8', '8', '5', '9', '-', '5'],
        supported_names()[17] == seq!['i', 's', 'o', '-', '8', '8', '5', '9', '-', '6'],
        supported_names()[18] == seq!['i', 's', 'o', '-', '8', '8', '5', '9', '-', '7'],
        supported_names()[19] == seq!['i', 's', 'o', '-', '8', '8', '5', '9', '-', '8'],
        supported_names()[20] == seq!['i', 's', 'o', '-', '8', '8', '5', '9', '-', '8', '-', 'i'],
        supported_names()[21] == seq!['i', 's', 'o', '-', '8', '8', '5', '9', '-', '1', '0'],
        supported_names()[22] == seq!['i', 's', 'o', '-', '8', '8', '5', '9', '-', '1', '3'],
        supported_names()[23] == seq!['i', 's', 'o', '-', '8', '8', '5', '9', '-', '1', '4'],
        supported_names()[24] == seq!['i', 's', 'o', '-', '8', '8', '5', '9', '-', '1', '5'],
        supported_names()[25] == seq!['i', 's', 'o', '-', '8', '8', '5', '9', '-', '1', '6'],
        supported_names()[26] == seq!['w', 'i', 'n', 'd', 'o', 'w', 's', '-', '1', '2', '5', '0'],
        supported_names()[27] == seq!['w', 'i', 'n', 'd', 'o', 'w', 's', '-', '1', '2', '5', '2'],
        supported_names()[28] == seq!['w', 'i', 'n', 'd', 'o', 'w', 's', '-', '1', '2', '5', '3'],
        supported_names()[29] == seq!['w', 'i', 'n', 'd', 'o', 'w', 's', '-', '1', '2', '5', '4'],
        supported_names()[30] == seq!['w', 'i', 'n', 'd', 'o', 'w', 's', '-', '1', '2', '5', '5'],
        supported_names()[31] == seq!['w', 'i', 'n', 'd', 'o', 'w', 's', '-', '1', '2', '5', '6'],
        supported_names()[32] == seq!['w', 'i', 'n', 'd', 'o', 'w', 's', '-', '1', '2', '5', '7'],
        supported_names()[33] == seq!['w', 'i', 'n', 'd', 'o', 'w', 's', '-', '1', '2', '5', '8'],
        supported_names()[34] == seq!['i', 'b', 'm', '8', '6', '6'],
        supported_names()[35] == seq!['w', 'i', 'n', 'd', 'o', 'w', 's', '-', '8', '7', '4'],
        supported_names()[36] == seq!['m', 'a', 'c', 'i', 'n', 't', 'o', 's', 'h'],
        supported_names()[37] == seq!['a', 's', 'c', 'i', 'i'],
        planned_names()[0] == seq!['t', 'i', 's', '-', '6', '2', '0'],
        planned_names()[1] == seq!['c', 'p', '4', '3', '7'],
        planned_names()[2] == seq!['c', 'p', '8', '5', '0'],
        planned_names()[3] == seq!['c', 'p', '9', '3', '2'],
        planned_names()[4] == seq!['g', 'b', '2', '3', '1', '2'],
        planned_names()[5] == seq!['h', 'z', '-', 'g', 'b', '-', '2', '3', '1', '2'],
        planned_names()[6] == seq!['u', 't', 'f', '-', '3', '2', 'l', 'e'],
        planned_names()[7] == seq!['u', 't', 'f', '-', '3', '2', 'b', 'e'],
        planned_names()[8] == seq!['u', 't', 'f', '-', '7'],
{
    reveal_strlit("ascii");
    reveal_strlit("big5");
    reveal_strlit("cp437");
    reveal_strlit("cp850");
    reveal_strlit("cp932");
    reveal_strlit("euc-jp");
    reveal_strlit("euc-kr");
    reveal_strlit("gb2312");
    reveal_strlit("gbk");
    reveal_strlit("hz-gb-2312");
    reveal_strlit("ibm866");
    reveal_strlit("iso-2022-jp");
    reveal_strlit("iso-8859-10");
    reveal_strlit("iso-8859-13");
    reveal_strlit("iso-8859-14");
    reveal_strlit("iso-8859-15");
    reveal_strlit("iso-8859-16");
    reveal_strlit("iso-8859-2");
    reveal_strlit("iso-8859-3");
    reveal_strlit("iso-8859-4");
    reveal_strlit("iso-8859-5");
    reveal_strlit("iso-8859-6");
    reveal_strlit("iso-8859-7");
    reveal_strlit("iso-8859-8");
    reveal_strlit("iso-8859-8-i");
    reveal_strlit("koi8-r");
    reveal_strlit("koi8-u");
    reveal_strlit("macintosh");
    reveal_strlit("shift_jis");
    reveal_strlit("tis-620");
    reveal_strlit("utf-16be");
    reveal_strlit("utf-16le");
    reveal_strlit("utf-32be");
    reveal_strlit("utf-32le");
    reveal_strlit("utf-7");
    reveal_strlit("utf-8");
    reveal_strlit("windows-1250");
    reveal_strlit("windows-1251");
    reveal_strlit("windows-1252");
    reveal_strlit("windows-1253");
    reveal_strlit("windows-1254");
    reveal_strlit("windows-1255");
    reveal_strlit("windows-1256");
    reveal_strlit("windows-1257");
    reveal_strlit("windows-1258");
    reveal_strlit("windows-874");
    reveal_strlit("x-mac-cyrillic");
    assert(SUPPORTED@[0]@ =~= seq!['u', 't', 'f', '-', '8']);
    assert(SUPPORTED@[1]@ =~= seq!['u', 't', 'f', '-', '1', '6', 'l', 'e']);
    assert(SUPPORTED@[2]@ =~= seq!['u', 't', 'f', '-', '1', '6', 'b', 'e']);
    assert(SUPPORTED@[3]@ =~= seq!['g', 'b', 'k']);
    assert(SUPPORTED@[4]@ =~= seq!['b', 'i', 'g', '5']);
    assert(SUPPORTED@[5]@ =~= seq!['s', 'h', 'i', 'f', 't', '_', 'j', 'i', 's']);
    assert(SUPPORTED@[6]@ =~= seq!['e', 'u', 'c', '-', 'j', 'p']);
    assert(SUPPORTED@[7]@ =~= seq!['e', 'u', 'c', '-', 'k', 'r']);
    assert(SUPPORTED@[8]@ =~= seq!['i', 's', 'o', '-', '2', '0', '2', '2', '-', 'j', 'p']);
    assert(SUPPORTED@[9]@ =~= seq!['k', 'o', 'i', '8', '-', 'r']);
    assert(SUPPORTED@[10]@ =~= seq!['k', 'o', 'i', '8', '-', 'u']);
    assert(SUPPORTED@[11]@ =~= seq!['w', 'i', 'n', 'd', 'o', 'w', 's', '-', '1', '2', '5', '1']);
    assert(SUPPORTED@[12]@ =~= seq!['x', '-', 'm', 'a', 'c', '-', 'c', 'y', 'r', 'i', 'l', 'l', 'i', 'c']);
    assert(SUPPORTED@[13]@ =~= seq!['i', 's', 'o', '-', '8', '8', '5', '9', '-', '2']);
    assert(SUPPORTED@[14]@ =~= seq!['i', 's', 'o', '-', '8', '8', '5', '9', '-', '3']);
    assert(SUPPORTED@[15]@ =~= seq!['i', 's', 'o', '-', '8', '8', '5', '9', '-', '4']);
    assert(SUPPORTED@[16]@ =~= seq!['i', 's', 'o', '-', '8', '8', '5', '9', '-', '5']);
    assert(SUPPORTED@[17]@ =~= seq!['i', 's', 'o', '-', '8', '8', '5', '9', '-', '6']);
    assert(SUPPORTED@[18]@ =~= seq!['i', 's', 'o', '-', '8', '8', '5', '9', '-', '7']);
    assert(SUPPORTED@[19]@ =~= seq!['i', 's', 'o', '-', '8', '8', '5', '9', '-', '8']);
    assert(SUPPORTED@[20]@ =~= seq!['i', 's', 'o', '-', '8', '8', '5', '9', '-', '8', '-', 'i']);
    assert(SUPPORTED@[21]@ =~= seq!['i', 's', 'o', '-', '8', '8', '5', '9', '-', '1', '0']);
    assert(SUPPORTED@[22]@ =~= seq!['i', 's', 'o', '-', '8', '8', '5', '9', '-', '1', '3']);
    assert(SUPPORTED@[23]@ =~= seq!['i', 's', 'o', '-', '8', '8', '5', '9', '-', '1', '4']);
    assert(SUPPORTED@[24]@ =~= seq!['i', 's', 'o', '-', '8', '8', '5', '9', '-', '1', '5']);
    assert(SUPPORTED@[25]@ =~= seq!['i', 's', 'o', '-', '8', '8', '5', '9', '-', '1', '6']);
    assert(SUPPORTED@[26]@ =~= seq!['w', 'i', 'n', 'd', 'o', 'w', 's', '-', '1', '2', '5', '0']);
    assert(SUPPORTED@[27]@ =~= seq!['w', 'i', 'n', 'd', 'o', 'w', 's', '-', '1', '2', '5', '2']);
    assert(SUPPORTED@[28]@ =~= seq!['w', 'i', 'n', 'd', 'o', 'w', 's', '-', '1', '2', '5', '3']);
    assert(SUPPORTED@[29]@ =~= seq!['w', 'i', 'n', 'd', 'o', 'w', 's', '-', '1', '2', '5', '4']);
    assert(SUPPORTED@[30]@ =~= seq!['w', 'i', 'n', 'd', 'o', 'w', 's', '-', '1', '2', '5', '5']);
    assert(SUPPORTED@[31]@ =~= seq!['w', 'i', 'n', 'd', 'o', 'w', 's', '-', '1', '2', '5', '6']);
    assert(SUPPORTED@[32]@ =~= seq!['w', 'i', 'n', 'd', 'o', 'w', 's', '-', '1', '2', '5', '7']);
    assert(SUPPORTED@[33]@ =~= seq!['w', 'i', 'n', 'd', 'o', 'w', 's', '-', '1', '2', '5', '8']);
    assert(SUPPORTED@[34]@ =~= seq!['i', 'b', 'm', '8', '6', '6']);
    assert(SUPPORTED@[35]@ =~= seq!['w', 'i', 'n', 'd', 'o', 'w', 's', '-', '8', '7', '4']);
    assert(SUPPORTED@[36]@ =~= seq!['m', 'a', 'c', 'i', 'n', 't', 'o', 's', 'h']);
    assert(SUPPORTED@[37]@ =~= seq!['a', 's', 'c', 'i', 'i']);
    assert(PLANNED@[0]@ =~= seq!['t', 'i', 's', '-', '6', '2', '0']);
    assert(PLANNED@[1]@ =~= seq!['c', 'p', '4', '3', '7']);
    assert(PLANNED@[2]@ =~= seq!['c', 'p', '8', '5', '0']);
    assert(PLANNED@[3]@ =~= seq!['c', 'p', '9', '3', '2']);
    assert(PLANNED@[4]@ =~= seq!['g', 'b', '2', '3', '1', '2']);
    assert(PLANNED@[5]@ =~= seq!['h', 'z', '-', 'g', 'b', '-', '2', '3', '1', '2']);
    assert(PLANNED@[6]@ =~= seq!['u', 't', 'f', '-', '3', '2', 'l', 'e']);
    assert(PLANNED@[7]@ =~= seq!['u', 't', 'f', '-', '3', '2', 'b', 'e']);
    assert(PLANNED@[8]@ =~= seq!['u', 't', 'f', '-', '7']);
}

/// The name `utf-8` is supported.
pub proof fn lemma_utf8_supported()
    ensures
        supported_names().contains(seq!['u', 't', 'f', '-', '8']),
{
    lemma_name_contents();
    assert(supported_names()[0] == seq!['u', 't', 'f', '-', '8']);
}

/// No planned name is a supported one.
pub proof fn lemma_planned_disjoint_from_supported()
    ensures
        forall|j: int| 0 <= j < planned_names().len() ==> !#[trigger] supported_names().contains(planned_names()[j]),
{
    lemma_name_contents();
    assert forall|j: int| 0 <= j < planned_names().len() implies !#[trigger] supported_names().contains(planned_names()[j]) by {
        assert forall|i: int| 0 <= i < supported_names().len() implies supported_names()[i] != planned_names()[j] by {
            if supported_names()[i] == planned_names()[j] {
                assert(supported_names()[i].len() == planned_names()[j].len());
                assert(supported_names()[i][0] == planned_names()[j][0]);
                assert(supported_names()[i][1] == planned_names()[j][1]);
                assert(supported_names()[i][2] == planned_names()[j][2]);
            }
        }
    }
}

/// The name is a member of some documentation group.
pub open spec fn in_some_group(n: Seq<char>) -> bool {
    exists|g: int, k: int| 0 <= g < GROUP_LABELS@.len() && 0 <= k < group_names(g).len() && #[trigger] group_names(g)[k] == n
}

/// The documentation groups hold exactly the supported encodings.
pub proof fn lemma_groups_cover_supported()
    ensures
        forall|n: Seq<char>| in_some_group(n) <==> supported_names().contains(n),
{
    assert forall|i: int| 0 <= i < supported_names().len() implies in_some_group(#[trigger] supported_names()[i]) by {
        if i == 0 {
            assert(group_names(0)[0] == supported_names()[0]);
        } else if i == 1 {
            assert(group_names(0)[1] == supported_names()[1]);
        } else if i == 2 {
            assert(group_names(0)[2] == supported_names()[2]);
        } else if i == 3 {
            assert(group_names(1)[0] == supported_names()[3]);
        } else if i == 4 {
            assert(group_names(1)[1] == supported_names()[4]);
        } else if i == 5 {
            assert(group_names(1)[2] == supported_names()[5]);
        } else if i == 6 {
            assert(group_names(1)[3] == supported_names()[6]);
        } else if i == 7 {
            assert(group_names(1)[4] == supported_names()[7]);
        } else if i == 8 {
            assert(group_names(1)[5] == supported_names()[8]);
        } else if i == 9 {
            assert(group_names(2)[0] == supported_names()[9]);
        } else if i == 10 {
            assert(group_names(2)[1] == supported_names()[10]);
        } else if i == 11 {
            assert(group_names(2)[2] == supported_names()[11]);
        } else if i == 12 {
            assert(group_names(2)[3] == supported_names()[12]);
        } else if i == 13 {
            assert(group_names(3)[0] == supported_names()[13]);
        } else if i == 14 {
            assert(group_names(3)[1] == supported_names()[14]);
        } else if i == 15 {
            assert(group_names(3)[2] == supported_names()[15]);
        } else if i == 16 {
            assert(group_names(3)[3] == supported_names()[16]);
        } else if i == 17 {
            assert(group_names(3)[4] == supported_names()[17]);
        } else if i == 18 {
            assert(group_names(3)[5] == supported_names()[18]);
        } else if i == 19 {
            assert(group_names(3)[6] == supported_names()[19]);
        } else if i == 20 {
            assert(group_names(3)[7] == supported_names()[20]);
        } else if i == 21 {
            assert(group_names(3)[8] == supported_names()[21]);
        } else if i == 22 {
            assert(group_names(3)[9] == supported_names()[22]);
        } else if i == 23 {
            assert(group_names(3)[10] == supported_names()[23]);
        } else if i == 24 {
            assert(group_names(3)[11] == supported_names()[24]);
        } else if i == 25 {
            assert(group_names(3)[12] == supported_names()[25]);
        } else if i == 26 {
            assert(group_names(4)[0] == supported_names()[26]);
        } else if i == 27 {
            assert(group_names(4)[1] == supported_names()[27]);
        } else if i == 28 {
            assert(group_names(4)[2] == supported_names()[28]);
        } else if i == 29 {
            assert(group_names(4)[3] == supported_names()[29]);
        } else if i == 30 {
            assert(group_names(4)[4] == supported_names()[30]);
        } else if i == 31 {
            assert(group_names(4)[5] == supported_names()[31]);
        } else if i == 32 {
            assert(group_names(4)[6] == supported_names()[32]);
        } else if i == 33 {
            assert(group_names(4)[7] == supported_names()[33]);
        } else if i == 34 {
            assert(group_names(5)[0] == supported_names()[34]);
        } else if i == 35 {
            assert(group_names(4)[8] == supported_names()[35]);
        } else if i == 36 {
            assert(group_names(5)[1] == supported_names()[36]);
        } else if i == 37 {
            assert(group_names(5)[2] == supported_names()[37]);
        }
    }
    assert forall|g: int, k: int| 0 <= g < GROUP_LABELS@.len() && 0 <= k < group_names(g).len() implies supported_names().contains(#[trigger] group_names(g)[k]) by {
        if g == 0 && k == 0 {
            assert(supported_names()[0] == group_names(g)[k]);
        } else if g == 0 && k == 1 {
            assert(supported_names()[1] == group_names(g)[k]);
        } else if g == 0 && k == 2 {
            assert(supported_names()[2] == group_names(g)[k]);
        } else if g == 1 && k == 0 {
            assert(supported_names()[3] == group_names(g)[k]);
        } else if g == 1 && k == 1 {
            assert(supported_names()[4] == group_names(g)[k]);
        } else if g == 1 && k == 2 {
            assert(supported_names()[5] == group_names(g)[k]);
        } else if g == 1 && k == 3 {
            assert(supported_names()[6] == group_names(g)[k]);
        } else if g == 1 && k == 4 {
            assert(supported_names()[7] == group_names(g)[k]);
        } else if g == 1 && k == 5 {
            assert(supported_names()[8] == group_names(g)[k]);
        } else if g == 2 && k == 0 {
            assert(supported_names()[9] == group_names(g)[k]);
        } else if g == 2 && k == 1 {
            assert(supported_names()[10] == group_names(g)[k]);
        } else if g == 2 && k == 2 {
            assert(supported_names()[11] == group_names(g)[k]);
        } else if g == 2 && k == 3 {
            assert(supported_names()[12] == group_names(g)[k]);
        } else if g == 3 && k == 0 {
            assert(supported_names()[13] == group_names(g)[k]);
        } else if g == 3 && k == 1 {
            assert(supported_names()[14] == group_names(g)[k]);
        } else if g == 3 && k == 2 {
            assert(supported_names()[15] == group_names(g)[k]);
        } else if g == 3 && k == 3 {
            assert(supported_names()[16] == group_names(g)[k]);
        } else if g == 3 && k == 4 {
            assert(supported_names()[17] == group_names(g)[k]);
        } else if g == 3 && k == 5 {
            assert(supported_names()[18] == group_names(g)[k]);
        } else if g == 3 && k == 6 {
            assert(supported_names()[19] == group_names(g)[k]);
        } else if g == 3 && k == 7 {
            assert(supported_names()[20] == group_names(g)[k]);
        } else if g == 3 && k == 8 {
            assert(supported_names()[21] == group_names(g)[k]);
        } else if g == 3 && k == 9 {
            assert(supported_names()[22] == group_names(g)[k]);
        } else if g == 3 && k == 10 {
            assert(supported_names()[23] == group_names(g)[k]);
        } else if g == 3 && k == 11 {
            assert(supported_names()[24] == group_names(g)[k]);
        } else if g == 3 && k == 12 {
            assert(supported_names()[25] == group_names(g)[k]);
        } else if g == 4 && k == 0 {
            assert(supported_names()[26] == group_names(g)[k]);
        } else if g == 4 && k == 1 {
            assert(supported_names()[27] == group_names(g)[k]);
        } else if g == 4 && k == 2 {
            assert(supported_names()[28] == group_names(g)[k]);
        } else if g == 4 && k == 3 {
            assert(supported_names()[29] == group_names(g)[k]);
        } else if g == 4 && k == 4 {
            assert(supported_names()[30] == group_names(g)[k]);
        } else if g == 4 && k == 5 {
            assert(supported_names()[31] == group_names(g)[k]);
        } else if g == 4 && k == 6 {
            assert(supported_names()[32] == group_names(g)[k]);
        } else if g == 4 && k == 7 {
            assert(supported_names()[33] == group_names(g)[k]);
        } else if g == 4 && k == 8 {
            assert(supported_names()[35] == group_names(g)[k]);
        } else if g == 5 && k == 0 {
            assert(supported_names()[34] == group_names(g)[k]);
        } else if g == 5 && k == 1 {
            assert(supported_names()[36] == group_names(g)[k]);
        } else if g == 5 && k == 2 {
            assert(supported_names()[37] == group_names(g)[k]);
        }
    }
    assert forall|n: Seq<char>| in_some_group(n) <==> supported_names().contains(n) by {
        if in_some_group(n) {
            let (g, k) = choose|g: int, k: int| 0 <= g < GROUP_LABELS@.len() && 0 <= k < group_names(g).len() && #[trigger] group_names(g)[k] == n;
            assert(supported_names().contains(group_names(g)[k]));
        }
        if supported_names().contains(n) {
            let i = choose|i: int| 0 <= i < supported_names().len() && supported_names()[i] == n;
            assert(in_some_group(supported_names()[i]));
        }
    }
}

/// No planned encoding is supported, in any ASCII case.
pub proof fn lemma_planned_unsupported()
    ensures
        forall|j: int| 0 <= j < planned_names().len() ==> !spec_is_supported(#[trigger] planned_names()[j]),
{
    lemma_name_contents();
    lemma_planned_disjoint_from_supported();
    assert forall|j: int| 0 <= j < planned_names().len() implies ascii_lower(#[trigger] planned_names()[j]) == planned_names()[j] by {
        if j == 0 {
            assert(ascii_lower(planned_names()[0]) =~= planned_names()[0]);
        } else if j == 1 {
            assert(ascii_lower(planned_names()[1]) =~= planned_names()[1]);
        } else if j == 2 {
            assert(ascii_lower(planned_names()[2]) =~= planned_names()[2]);
        } else if j == 3 {
            assert(ascii_lower(planned_names()[3]) =~= planned_names()[3]);
        } else if j == 4 {
            assert(ascii_lower(planned_names()[4]) =~= planned_names()[4]);
        } else if j == 5 {
            assert(ascii_lower(planned_names()[5]) =~= planned_names()[5]);
        } else if j == 6 {
            assert(ascii_lower(planned_names()[6]) =~= planned_names()[6]);
        } else if j == 7 {
            assert(ascii_lower(planned_names()[7]) =~= planned_names()[7]);
        } else if j == 8 {
            assert(ascii_lower(planned_names()[8]) =~= planned_names()[8]);
        }
    }
}

/// The supported names followed by the planned ones.
pub open spec fn listed_names() -> Seq<Seq<char>> {
    supported_names() + planned_names()
}

/// The position of each listed name in alphabetical order.
spec fn alphabetical_rank(i: int) -> int {
    if i == 0 {
        35
    } else if i == 1 {
        31
    } else if i == 2 {
        30
    } else if i == 3 {
        8
    } else if i == 4 {
        1
    } else if i == 5 {
        28
    } else if i == 6 {
        5
    } else if i == 7 {
        6
    } else if i == 8 {
        11
    } else if i == 9 {
        25
    } else if i == 10 {
        26
    } else if i == 11 {
        37
    } else if i == 12 {
        46
    } else if i == 13 {
        17
    } else if i == 14 {
        18
    } else if i == 15 {
        19
    } else if i == 16 {
        20
    } else if i == 17 {
        21
    } else if i == 18 {
        22
    } else if i == 19 {
        23
    } else if i == 20 {
        24
    } else if i == 21 {
        12
    } else if i == 22 {
        13
    } else if i == 23 {
        14
    } else if i == 24 {
        15
    } else if i == 25 {
        16
    } else if i == 26 {
        36
    } else if i == 27 {
        38
    } else if i == 28 {
        39
    } else if i == 29 {
        40
    } else if i == 30 {
        41
    } else if i == 31 {
        42
    } else if i == 32 {
        43
    } else if i == 33 {
        44
    } else if i == 34 {
        10
    } else if i == 35 {
        45
    } else if i == 36 {
        27
    } else if i == 37 {
        0
    } else if i == 38 {
        29
    } else if i == 39 {
        2
    } else if i == 40 {
        3
    } else if i == 41 {
        4
    } else if i == 42 {
        7
    } else if i == 43 {
        9
    } else if i == 44 {
        33
    } else if i == 45 {
        32
    } else if i == 46 {
        34
    } else {
        0
    }
}

/// The listed name at each alphabetical position.
spec fn alphabetical_name(p: int) -> int {
    if p == 0 {
        37
    } else if p == 1 {
        4
    } else if p == 2 {
        39
    } else if p == 3 {
        40
    } else if p == 4 {
        41
    } else if p == 5 {
        6
    } else if p == 6 {
        7
    } else if p == 7 {
        42
    } else if p == 8 {
        3
    } else if p == 9 {
        43
    } else if p == 10 {
        34
    } else if p == 11 {
        8
    } else if p == 12 {
        21
    } else if p == 13 {
        22
    } else if p == 14 {
        23
    } else if p == 15 {
        24
    } else if p == 16 {
        25
    } else if p == 17 {
        13
    } else if p == 18 {
        14
    } else if p == 19 {
        15
    } else if p == 20 {
        16
    } else if p == 21 {
        17
    } else if p == 22 {
        18
    } else if p == 23 {
        19
    } else if p == 24 {
        20
    } else if p == 25 {
        9
    } else if p == 26 {
        10
    } else if p == 27 {
        36
    } else if p == 28 {
        5
    } else if p == 29 {
        38
    } else if p == 30 {
        2
    } else if p == 31 {
        1
    } else if p == 32 {
        45
    } else if p == 33 {
        44
    } else if p == 34 {
        46
    } else if p == 35 {
        0
    } else if p == 36 {
        26
    } else if p == 37 {
        11
    } else if p == 38 {
        27
    } else if p == 39 {
        28
    } else if p == 40 {
        29
    } else if p == 41 {
        30
    } else if p == 42 {
        31
    } else if p == 43 {
        32
    } else if p == 44 {
        33
    } else if p == 45 {
        35
    } else if p == 46 {
        12
    } else {
        0
    }
}

/// Consecutive names in alphabetical order are strictly ordered.
proof fn lemma_alphabetical_steps()
    ensures
        forall|p: int| 0 <= p < listed_names().len() - 1 ==> lex_less(
            #[trigger] listed_names()[alphabetical_name(p)],
            listed_names()[alphabetical_name(p + 1)],
        ),
{
    lemma_name_contents();
    assert forall|p: int| 0 <= p < listed_names().len() - 1 implies lex_less(
        #[trigger] listed_names()[alphabetical_name(p)],
        listed_names()[alphabetical_name(p + 1)],
    ) by {
        if p == 0 {
            assert(listed_names()[37] == seq!['a', 's', 'c', 'i', 'i']);
            assert(listed_names()[4] == seq!['b', 'i', 'g', '5']);
            assert(lex_less(seq!['a', 's', 'c', 'i', 'i'], seq!['b', 'i', 'g', '5'])) by {
                reveal_with_fuel(lex_less, 2);
            }
        } else if p == 1 {
            assert(listed_names()[4] == seq!['b', 'i', 'g', '5']);
            assert(listed_names()[39] == seq!['c', 'p', '4', '3', '7']);
            assert(lex_less(seq!['b', 'i', 'g', '5'], seq!['c', 'p', '4', '3', '7'])) by {
                reveal_with_fuel(lex_less, 2);
            }
        } else if p == 2 {
            assert(listed_names()[39] == seq!['c', 'p', '4', '3', '7']);
            assert(listed_names()[40] == seq!['c', 'p', '8', '5', '0']);
            assert(lex_less(seq!['c', 'p', '4', '3', '7'], seq!['c', 'p', '8', '5', '0'])) by {
                reveal_with_fuel(lex_less, 4);
            }
        } else if p == 3 {
            assert(listed_names()[40] == seq!['c', 'p', '8', '5', '0']);
            assert(listed_names()[41] == seq!['c', 'p', '9', '3', '2']);
            assert(lex_less(seq!['c', 'p', '8', '5', '0'], seq!['c', 'p', '9', '3', '2'])) by {
                reveal_with_fuel(lex_less, 4);
            }
        } else if p == 4 {
            assert(listed_names()[41] == seq!['c', 'p', '9', '3', '2']);
            assert(listed_names()[6] == seq!['e', 'u', 'c', '-', 'j', 'p']);
            assert(lex_less(seq!['c', 'p', '9', '3', '2'], seq!['e', 'u', 'c', '-', 'j', 'p'])) by {
                reveal_with_fuel(lex_less, 2);
            }
        } else if p == 5 {
            assert(listed_names()[6] == seq!['e', 'u', 'c', '-', 'j', 'p']);
            assert(listed_names()[7] == seq!['e', 'u', 'c', '-', 'k', 'r']);
            assert(lex_less(seq!['e', 'u', 'c', '-', 'j', 'p'], seq!['e', 'u', 'c', '-', 'k', 'r'])) by {
                reveal_with_fuel(lex_less, 6);
            }
        } else if p == 6 {
            assert(listed_names()[7] == seq!['e', 'u', 'c', '-', 'k', 'r']);
            assert(listed_names()[42] == seq!['g', 'b', '2', '3', '1', '2']);
            assert(lex_less(seq!['e', 'u', 'c', '-', 'k', 'r'], seq!['g', 'b', '2', '3', '1', '2'])) by {
                reveal_with_fuel(lex_less, 2);
            }
        } else if p == 7 {
            assert(listed_names()[42] == seq!['g', 'b', '2', '3', '1', '2']);
            assert(listed_names()[3] == seq!['g', 'b', 'k']);
            assert(lex_less(seq!['g', 'b', '2', '3', '1', '2'], seq!['g', 'b', 'k'])) by {
                reveal_with_fuel(lex_less, 4);
            }
        } else if p == 8 {
            assert(listed_names()[3] == seq!['g', 'b', 'k']);
            assert(listed_names()[43] == seq!['h', 'z', '-', 'g', 'b', '-', '2', '3', '1', '2']);
            assert(lex_less(seq!['g', 'b', 'k'], seq!['h', 'z', '-', 'g', 'b', '-', '2', '3', '1', '2'])) by {
                reveal_with_fuel(lex_less, 2);
            }
        } else if p == 9 {
            assert(listed_names()[43] == seq!['h', 'z', '-', 'g', 'b', '-', '2', '3', '1', '2']);
            assert(listed_names()[34] == seq!['i', 'b', 'm', '8', '6', '6']);
            assert(lex_less(seq!['h', 'z', '-', 'g', 'b', '-', '2', '3', '1', '2'], seq!['i', 'b', 'm', '8', '6', '6'])) by {
                reveal_with_fuel(lex_less, 2);
            }
        } else if p == 10 {
            assert(listed_names()[34] == seq!['i', 'b', 'm', '8', '6', '6']);
            assert(listed_names()[8] == seq!['i', 's', 'o', '-', '2', '0', '2', '2', '-', 'j', 'p']);
            assert(lex_less(seq!['i', 'b', 'm', '8', '6', '6'], seq!['i', 's', 'o', '-', '2', '0', '2', '2', '-', 'j', 'p'])) by {
                reveal_with_fuel(lex_less, 3);
            }
        } else if p == 11 {
            assert(listed_names()[8] == seq!['i', 's', 'o', '-', '2', '0', '2', '2', '-', 'j', 'p']);
            assert(listed_names()[21] == seq!['i', 's', 'o', '-', '8', '8', '5', '9', '-', '1', '0']);
            assert(lex_less(seq!['i', 's', 'o', '-', '2', '0', '2', '2', '-', 'j', 'p'], seq!['i', 's', 'o', '-', '8', '8', '5', '9', '-', '1', '0'])) by {
                reveal_with_fuel(lex_less, 6);
            }
        } else if p == 12 {
            assert(listed_names()[21] == seq!['i', 's', 'o', '-', '8', '8', '5', '9', '-', '1', '0']);
            assert(listed_names()[22] == seq!['i', 's', 'o', '-', '8', '8', '5', '9', '-', '1', '3']);
            assert(lex_less(seq!['i', 's', 'o', '-', '8', '8', '5', '9', '-', '1', '0'], seq!['i', 's', 'o', '-', '8', '8', '5', '9', '-', '1', '3'])) by {
                reveal_with_fuel(lex_less, 12);
            }
        } else if p == 13 {
            assert(listed_names()[22] == seq!['i', 's', 'o', '-', '8', '8', '5', '9', '-', '1', '3']);
            assert(listed_names()[23] == seq!['i', 's', 'o', '-', '8', '8', '5', '9', '-', '1', '4']);
            assert(lex_less(seq!['i', 's', 'o', '-', '8', '8', '5', '9', '-', '1', '3'], seq!['i', 's', 'o', '-', '8', '8', '5', '9', '-', '1', '4'])) by {
                reveal_with_fuel(lex_less, 12);
            }
        } else if p == 14 {
            assert(listed_names()[23] == seq!['i', 's', 'o', '-', '8', '8', '5', '9', '-', '1', '4']);
            assert(listed_names()[24] == seq!['i', 's', 'o', '-', '8', '8', '5', '9', '-', '1', '5']);
            assert(lex_less(seq!['i', 's', 'o', '-', '8', '8', '5', '9', '-', '1', '4'], seq!['i', 's', 'o', '-', '8', '8', '5', '9', '-', '1', '5'])) by {
                reveal_with_fuel(lex_less, 12);
            }
        } else if p == 15 {
            assert(listed_names()[24] == seq!['i', 's', 'o', '-', '8', '8', '5', '9', '-', '1', '5']);
            assert(listed_names()[25] == seq!['i', 's', 'o', '-', '8', '8', '5', '9', '-', '1', '6']);
            assert(lex_less(seq!['i', 's', 'o', '-', '8', '8', '5', '9', '-', '1', '5'], seq!['i', 's', 'o', '-', '8', '8', '5', '9', '-', '1', '6'])) by {
                reveal_with_fuel(lex_less, 12);
            }
        } else if p == 16 {
            assert(listed_names()[25] == seq!['i', 's', 'o', '-', '8', '8', '5', '9', '-', '1', '6']);
            assert(listed_names()[13] == seq!['i', 's', 'o', '-', '8', '8', '5', '9', '-', '2']);
            assert(lex_less(seq!['i', 's', 'o', '-', '8', '8', '5', '9', '-', '1', '6'], seq!['i', 's', 'o', '-', '8', '8', '5', '9', '-', '2'])) by {
                reveal_with_fuel(lex_less, 11);
            }
        } else if p == 17 {
            assert(listed_names()[13] == seq!['i', 's', 'o', '-', '8', '8', '5', '9', '-', '2']);
            assert(listed_names()[14] == seq!['i', 's', 'o', '-', '8', '8', '5', '9', '-', '3']);
            assert(lex_less(seq!['i', 's', 'o', '-', '8', '8', '5', '9', '-', '2'], seq!['i', 's', 'o', '-', '8', '8', '5', '9', '-', '3'])) by {
                reveal_with_fuel(lex_less, 11);
            }
        } else if p == 18 {
            assert(listed_names()[14] == seq!['i', 's', 'o', '-', '8', '8', '5', '9', '-', '3']);
            assert(listed_names()[15] == seq!['i', 's', 'o', '-', '8', '8', '5', '9', '-', '4']);
            assert(lex_less(seq!['i', 's', 'o', '-', '8', '8', '5', '9', '-', '3'], seq!['i', 's', 'o', '-', '8', '8', '5', '9', '-', '4'])) by {
                reveal_with_fuel(lex_less, 11);
            }
        } else if p == 19 {
            assert(listed_names()[15] == seq!['i', 's', 'o', '-', '8', '8', '5', '9', '-', '4']);
            assert(listed_names()[16] == seq!['i', 's', 'o', '-', '8', '8', '5', '9', '-', '5']);
            assert(lex_less(seq!['i', 's', 'o', '-', '8', '8', '5', '9', '-', '4'], seq!['i', 's', 'o', '-', '8', '8', '5', '9', '-', '5'])) by {
                reveal_with_fuel(lex_less, 11);
            }
        } else if p == 20 {
            assert(listed_names()[16] == seq!['i', 's', 'o', '-', '8', '8', '5', '9', '-', '5']);
            assert(listed_names()[17] == seq!['i', 's', 'o', '-', '8', '8', '5', '9', '-', '6']);
            assert(lex_less(seq!['i', 's', 'o', '-', '8', '8', '5', '9', '-', '5'], seq!['i', 's', 'o', '-', '8', '8', '5', '9', '-', '6'])) by {
                reveal_with_fuel(lex_less, 11);
            }
        } else if p == 21 {
            assert(listed_names()[17] == seq!['i', 's', 'o', '-', '8', '8', '5', '9', '-', '6']);
            assert(listed_names()[18] == seq!['i', 's', 'o', '-', '8', '8', '5', '9', '-', '7']);
            assert(lex_less(seq!['i', 's', 'o', '-', '8', '8', '5', '9', '-', '6'], seq!['i', 's', 'o', '-', '8', '8', '5', '9', '-', '7'])) by {
                reveal_with_fuel(lex_less, 11);
            }
        } else if p == 22 {
            assert(listed_names()[18] == seq!['i', 's', 'o', '-', '8', '8', '5', '9', '-', '7']);
            assert(listed_names()[19] == seq!['i', 's', 'o', '-', '8', '8', '5', '9', '-', '8']);
            assert(lex_less(seq!['i', 's', 'o', '-', '8', '8', '5', '9', '-', '7'], seq!['i', 's', 'o', '-', '8', '8', '5', '9', '-', '8'])) by {
                reveal_with_fuel(lex_less, 11);
            }
        } else if p == 23 {
            assert(listed_names()[19] == seq!['i', 's', 'o', '-', '8', '8', '5', '9', '-', '8']);
            assert(listed_names()[20] == seq!['i', 's', 'o', '-', '8', '8', '5', '9', '-', '8', '-', 'i']);
            assert(lex_less(seq!['i', 's', 'o', '-', '8', '8', '5', '9', '-', '8'], seq!['i', 's', 'o', '-', '8', '8', '5', '9', '-', '8', '-', 'i'])) by {
                reveal_with_fuel(lex_less, 12);
            }
        } else if p == 24 {
            assert(listed_names()[20] == seq!['i', 's', 'o', '-', '8', '8', '5', '9', '-', '8', '-', 'i']);
            assert(listed_names()[9] == seq!['k', 'o', 'i', '8', '-', 'r']);
            assert(lex_less(seq!['i', 's', 'o', '-', '8', '8', '5', '9', '-', '8', '-', 'i'], seq!['k', 'o', 'i', '8', '-', 'r'])) by {
                reveal_with_fuel(lex_less, 2);
            }
        } else if p == 25 {
            assert(listed_names()[9] == seq!['k', 'o', 'i', '8', '-', 'r']);
            assert(listed_names()[10] == seq!['k', 'o', 'i', '8', '-', 'u']);
            assert(lex_less(seq!['k', 'o', 'i', '8', '-', 'r'], seq!['k', 'o', 'i', '8', '-', 'u'])) by {
                reveal_with_fuel(lex_less, 7);
            }
        } else if p == 26 {
            assert(listed_names()[10] == seq!['k', 'o', 'i', '8', '-', 'u']);
            assert(listed_names()[36] == seq!['m', 'a', 'c', 'i', 'n', 't', 'o', 's', 'h']);
            assert(lex_less(seq!['k', 'o', 'i', '8', '-', 'u'], seq!['m', 'a', 'c', 'i', 'n', 't', 'o', 's', 'h'])) by {
                reveal_with_fuel(lex_less, 2);
            }
        } else if p == 27 {
            assert(listed_names()[36] == seq!['m', 'a', 'c', 'i', 'n', 't', 'o', 's', 'h']);
            assert(listed_names()[5] == seq!['s', 'h', 'i', 'f', 't', '_', 'j', 'i', 's']);
            assert(lex_less(seq!['m', 'a', 'c', 'i', 'n', 't', 'o', 's', 'h'], seq!['s', 'h', 'i', 'f', 't', '_', 'j', 'i', 's'])) by {
                reveal_with_fuel(lex_less, 2);
            }
        } else if p == 28 {
            assert(listed_names()[5] == seq!['s', 'h', 'i', 'f', 't', '_', 'j', 'i', 's']);
            assert(listed_names()[38] == seq!['t', 'i', 's', '-', '6', '2', '0']);
            assert(lex_less(seq!['s', 'h', 'i', 'f', 't', '_', 'j', 'i', 's'], seq!['t', 'i', 's', '-', '6', '2', '0'])) by {
                reveal_with_fuel(lex_less, 2);
            }
        } else if p == 29 {
            assert(listed_names()[38] == seq!['t', 'i', 's', '-', '6', '2', '0']);
            assert(listed_names()[2] == seq!['u', 't', 'f', '-', '1', '6', 'b', 'e']);
            assert(lex_less(seq!['t', 'i', 's', '-', '6', '2', '0'], seq!['u', 't', 'f', '-', '1', '6', 'b', 'e'])) by {
                reveal_with_fuel(lex_less, 2);
            }
        } else if p == 30 {
            assert(listed_names()[2] == seq!['u', 't', 'f', '-', '1', '6', 'b', 'e']);
            assert(listed_names()[1] == seq!['u', 't', 'f', '-', '1', '6', 'l', 'e']);
            assert(lex_less(seq!['u', 't', 'f', '-', '1', '6', 'b', 'e'], seq!['u', 't', 'f', '-', '1', '6', 'l', 'e'])) by {
                reveal_with_fuel(lex_less, 8);
            }
        } else if p == 31 {
            assert(listed_names()[1] == seq!['u', 't', 'f', '-', '1', '6', 'l', 'e']);
            assert(listed_names()[45] == seq!['u', 't', 'f', '-', '3', '2', 'b', 'e']);
            assert(lex_less(seq!['u', 't', 'f', '-', '1', '6', 'l', 'e'], seq!['u', 't', 'f', '-', '3', '2', 'b', 'e'])) by {
                reveal_with_fuel(lex_less, 6);
            }
        } else if p == 32 {
            assert(listed_names()[45] == seq!['u', 't', 'f', '-', '3', '2', 'b', 'e']);
            assert(listed_names()[44] == seq!['u', 't', 'f', '-', '3', '2', 'l', 'e']);
            assert(lex_less(seq!['u', 't', 'f', '-', '3', '2', 'b', 'e'], seq!['u', 't', 'f', '-', '3', '2', 'l', 'e'])) by {
                reveal_with_fuel(lex_less, 8);
            }
        } else if p == 33 {
            assert(listed_names()[44] == seq!['u', 't', 'f', '-', '3', '2', 'l', 'e']);
            assert(listed_names()[46] == seq!['u', 't', 'f', '-', '7']);
            assert(lex_less(seq!['u', 't', 'f', '-', '3', '2', 'l', 'e'], seq!['u', 't', 'f', '-', '7'])) by {
                reveal_with_fuel(lex_less, 6);
            }
        } else if p == 34 {
            assert(listed_names()[46] == seq!['u', 't', 'f', '-', '7']);
            assert(listed_names()[0] == seq!['u', 't', 'f', '-', '8']);
            assert(lex_less(seq!['u', 't', 'f', '-', '7'], seq!['u', 't', 'f', '-', '8'])) by {
                reveal_with_fuel(lex_less, 6);
            }
        } else if p == 35 {
            assert(listed_names()[0] == seq!['u', 't', 'f', '-', '8']);
            assert(listed_names()[26] == seq!['w', 'i', 'n', 'd', 'o', 'w', 's', '-', '1', '2', '5', '0']);
            assert(lex_less(seq!['u', 't', 'f', '-', '8'], seq!['w', 'i', 'n', 'd', 'o', 'w', 's', '-', '1', '2', '5', '0'])) by {
                reveal_with_fuel(lex_less, 2);
            }
        } else if p == 36 {
            assert(listed_names()[26] == seq!['w', 'i', 'n', 'd', 'o', 'w', 's', '-', '1', '2', '5', '0']);
            assert(listed_names()[11] == seq!['w', 'i', 'n', 'd', 'o', 'w', 's', '-', '1', '2', '5', '1']);
            assert(lex_less(seq!['w', 'i', 'n', 'd', 'o', 'w', 's', '-', '1', '2', '5', '0'], seq!['w', 'i', 'n', 'd', 'o', 'w', 's', '-', '1', '2', '5', '1'])) by {
                reveal_with_fuel(lex_less, 13);
            }
        } else if p == 37 {
            assert(listed_names()[11] == seq!['w', 'i', 'n', 'd', 'o', 'w', 's', '-', '1', '2', '5', '1']);
            assert(listed_names()[27] == seq!['w', 'i', 'n', 'd', 'o', 'w', 's', '-', '1', '2', '5', '2']);
            assert(lex_less(seq!['w', 'i', 'n', 'd', 'o', 'w', 's', '-', '1', '2', '5', '1'], seq!['w', 'i', 'n', 'd', 'o', 'w', 's', '-', '1', '2', '5', '2'])) by {
                reveal_with_fuel(lex_less, 13);
            }
        } else if p == 38 {
            assert(listed_names()[27] == seq!['w', 'i', 'n', 'd', 'o', 'w', 's', '-', '1', '2', '5', '2']);
            assert(listed_names()[28] == seq!['w', 'i', 'n', 'd', 'o', 'w', 's', '-', '1', '2', '5', '3']);
            assert(lex_less(seq!['w', 'i', 'n', 'd', 'o', 'w', 's', '-', '1', '2', '5', '2'], seq!['w', 'i', 'n', 'd', 'o', 'w', 's', '-', '1', '2', '5', '3'])) by {
                reveal_with_fuel(lex_less, 13);
            }
        } else if p == 39 {
            assert(listed_names()[28] == seq!['w', 'i', 'n', 'd', 'o', 'w', 's', '-', '1', '2', '5', '3']);
            assert(listed_names()[29] == seq!['w', 'i', 'n', 'd', 'o', 'w', 's', '-', '1', '2', '5', '4']);
            assert(lex_less(seq!['w', 'i', 'n', 'd', 'o', 'w', 's', '-', '1', '2', '5', '3'], seq!['w', 'i', 'n', 'd', 'o', 'w', 's', '-', '1', '2', '5', '4'])) by {
                reveal_with_fuel(lex_less, 13);
            }
        } else if p == 40 {
            assert(listed_names()[29] == seq!['w', 'i', 'n', 'd', 'o', 'w', 's', '-', '1', '2', '5', '4']);
            assert(listed_names()[30] == seq!['w', 'i', 'n', 'd', 'o', 'w', 's', '-', '1', '2', '5', '5']);
            assert(lex_less(seq!['w', 'i', 'n', 'd', 'o', 'w', 's', '-', '1', '2', '5', '4'], seq!['w', 'i', 'n', 'd', 'o', 'w', 's', '-', '1', '2', '5', '5'])) by {
                reveal_with_fuel(lex_less, 13);
            }
        } else if p == 41 {
            assert(listed_names()[30] == seq!['w', 'i', 'n', 'd', 'o', 'w', 's', '-', '1', '2', '5', '5']);
            assert(listed_names()[31] == seq!['w', 'i', 'n', 'd', 'o', 'w', 's', '-', '1', '2', '5', '6']);
            assert(lex_less(seq!['w', 'i', 'n', 'd', 'o', 'w', 's', '-', '1', '2', '5', '5'], seq!['w', 'i', 'n', 'd', 'o', 'w', 's', '-', '1', '2', '5', '6'])) by {
                reveal_with_fuel(lex_less, 13);
            }
        } else if p == 42 {
            assert(listed_names()[31] == seq!['w', 'i', 'n', 'd', 'o', 'w', 's', '-', '1', '2', '5', '6']);
            assert(listed_names()[32] == seq!['w', 'i', 'n', 'd', 'o', 'w', 's', '-', '1', '2', '5', '7']);
            assert(lex_less(seq!['w', 'i', 'n', 'd', 'o', 'w', 's', '-', '1', '2', '5', '6'], seq!['w', 'i', 'n', 'd', 'o', 'w', 's', '-', '1', '2', '5', '7'])) by {
                reveal_with_fuel(lex_less, 13);
            }
        } else if p == 43 {
            assert(listed_names()[32] == seq!['w', 'i', 'n', 'd', 'o', 'w', 's', '-', '1', '2', '5', '7']);
            assert(listed_names()[33] == seq!['w', 'i', 'n', 'd', 'o', 'w', 's', '-', '1', '2', '5', '8']);
            assert(lex_less(seq!['w', 'i', 'n', 'd', 'o', 'w', 's', '-', '1', '2', '5', '7'], seq!['w', 'i', 'n', 'd', 'o', 'w', 's', '-', '1', '2', '5', '8'])) by {
                reveal_with_fuel(lex_less, 13);
            }
        } else if p == 44 {
            assert(listed_names()[33] == seq!['w', 'i', 'n', 'd', 'o', 'w', 's', '-', '1', '2', '5', '8']);
            assert(listed_names()[35] == seq!['w', 'i', 'n', 'd', 'o', 'w', 's', '-', '8', '7', '4']);
            assert(lex_less(seq!['w', 'i', 'n', 'd', 'o', 'w', 's', '-', '1', '2', '5', '8'], seq!['w', 'i', 'n', 'd', 'o', 'w', 's', '-', '8', '7', '4'])) by {
                reveal_with_fuel(lex_less, 10);
            }
        } else if p == 45 {
            assert(listed_names()[35] == seq!['w', 'i', 'n', 'd', 'o', 'w', 's', '-', '8', '7', '4']);
            assert(listed_names()[12] == seq!['x', '-', 'm', 'a', 'c', '-', 'c', 'y', 'r', 'i', 'l', 'l', 'i', 'c']);
            assert(lex_less(seq!['w', 'i', 'n', 'd', 'o', 'w', 's', '-', '8', '7', '4'], seq!['x', '-', 'm', 'a', 'c', '-', 'c', 'y', 'r', 'i', 'l', 'l', 'i', 'c'])) by {
                reveal_with_fuel(lex_less, 2);
            }
        }
    }
}

/// Names further apart in alphabetical order are strictly ordered too.
proof fn lemma_alphabetical_order(p: int, q: int)
    requires
        0 <= p < q < listed_names().len(),
    ensures
        lex_less(listed_names()[alphabetical_name(p)], listed_names()[alphabetical_name(q)]),
    decreases q - p,
{
    lemma_alphabetical_steps();
    assert(lex_less(listed_names()[alphabetical_name(q - 1)], listed_names()[alphabetical_name(q)]));
    if p < q - 1 {
        lemma_alphabetical_order(p, q - 1);
        lemma_lex_trans(
            listed_names()[alphabetical_name(p)],
            listed_names()[alphabetical_name(q - 1)],
            listed_names()[alphabetical_name(q)],
        );
    }
}

/// No name is listed twice: the supported and planned names are all different.
pub proof fn lemma_listed_names_distinct()
    ensures
        listed_names().no_duplicates(),
{
    assert forall|i: int| 0 <= i < listed_names().len() implies 0 <= #[trigger] alphabetical_rank(i) < listed_names().len()
        && alphabetical_name(alphabetical_rank(i)) == i by {}
    assert forall|i: int, j: int| 0 <= i < listed_names().len() && 0 <= j < listed_names().len() && i != j implies listed_names()[i] != listed_names()[j] by {
        let a = alphabetical_rank(i);
        let b = alphabetical_rank(j);
        assert(a != b);
        if a < b {
            lemma_alphabetical_order(a, b);
        } else {
            lemma_alphabetical_order(b, a);
        }
        lemma_lex_irreflexive(listed_names()[i]);
    }
}

} // verus!

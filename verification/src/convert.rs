//! Conversion of text between supported encodings.

use vstd::prelude::*;

use crate::detect::{is_binary_content, spec_looks_binary};
use crate::encodings::{
    decode_with, encode_with, lookup_encoding, lookup_label, spec_is_supported, whatwg_decode,
    whatwg_encode, whatwg_encoding_name, EncodingError,
};
use crate::text::{append_str, ascii_lower, str_eq, to_ascii_lowercase, to_owned_string};

verus! {

/// Options of a conversion.
#[derive(Debug, Clone, Copy)]
pub struct ConvertOptions {
    /// Fail instead of replacing malformed input or unmappable characters.
    pub strict: bool,
    /// Start UTF-8 and UTF-16 output with a byte order mark.
    pub write_bom: bool,
    /// Allow overwriting an existing output file, including the input itself.
    pub force: bool,
}

impl Default for ConvertOptions {
    fn default() -> (r: Self)
        ensures
            !r.strict && !r.write_bom && !r.force,
    {
        ConvertOptions { strict: false, write_bom: false, force: false }
    }
}

/// Why a conversion failed.
#[derive(Debug)]
pub enum ConvertError {
    /// An encoding name could not be resolved.
    Encoding(EncodingError),
    /// The input looks like binary content.
    BinaryInput,
    /// Strict mode found malformed input for the source encoding (lower-cased name).
    DecodeError { from: String },
    /// Strict mode found characters the target encoding cannot represent (lower-cased name).
    EncodeError { to: String },
    /// The input path is not a file.
    InputNotFound(String),
    /// The output file exists and `force` is off.
    OutputExists(String),
    /// The output path is the input path and `force` is off.
    SamePathWithoutForce,
    /// Reading or writing failed; holds the error message.
    Io(String),
}

impl From<EncodingError> for ConvertError {
    fn from(err: EncodingError) -> (r: Self)
        ensures
            r == ConvertError::Encoding(err),
    {
        ConvertError::Encoding(err)
    }
}

impl vstd::std_specs::convert::FromSpecImpl<EncodingError> for ConvertError {
    open spec fn obeys_from_spec() -> bool {
        true
    }

    open spec fn from_spec(err: EncodingError) -> Self {
        ConvertError::Encoding(err)
    }
}

/// The outcome of a conversion, over plain values.
pub enum ConvertOutcome {
    /// The converted bytes.
    Bytes(Seq<u8>),
    /// An encoding name that is not supported (lower-cased).
    Unsupported(Seq<char>),
    /// A supported encoding name that `encoding_rs` does not resolve (lower-cased).
    Unresolvable(Seq<char>),
    /// The input looks binary.
    Binary,
    /// Strict decoding failed for the named source encoding.
    Decode(Seq<char>),
    /// Strict encoding failed for the named target encoding.
    Encode(Seq<char>),
}

/// A conversion result carries the given outcome.
pub open spec fn outcome_of(r: Result<Vec<u8>, ConvertError>, o: ConvertOutcome) -> bool {
    match o {
        ConvertOutcome::Bytes(b) => r matches Ok(v) && v@ == b,
        ConvertOutcome::Unsupported(n) => r matches Err(
            ConvertError::Encoding(EncodingError::Unsupported(m)),
        ) && m@ == n,
        ConvertOutcome::Unresolvable(n) => r matches Err(
            ConvertError::Encoding(EncodingError::Unresolvable(m)),
        ) && m@ == n,
        ConvertOutcome::Binary => r matches Err(ConvertError::BinaryInput),
        ConvertOutcome::Decode(n) => r matches Err(ConvertError::DecodeError { from }) && from@
            == n,
        ConvertOutcome::Encode(n) => r matches Err(ConvertError::EncodeError { to }) && to@ == n,
    }
}

/// The UTF-16 code units of one character.
pub open spec fn utf16_units(c: char) -> Seq<u16> {
    let v = c as u32;
    if v < 0x10000 {
        seq![v as u16]
    } else {
        let w = (v - 0x10000) as int;
        seq![(0xD800 + w / 1024) as u16, (0xDC00 + w % 1024) as u16]
    }
}

/// The two bytes of a code unit, least significant first.
pub open spec fn unit_le(u: u16) -> Seq<u8> {
    seq![(u % 256) as u8, (u / 256) as u8]
}

/// The two bytes of a code unit, most significant first.
pub open spec fn unit_be(u: u16) -> Seq<u8> {
    seq![(u / 256) as u8, (u % 256) as u8]
}

/// The UTF-16LE bytes of one character.
pub open spec fn char_utf16le(c: char) -> Seq<u8> {
    let units = utf16_units(c);
    if units.len() == 1 {
        unit_le(units[0])
    } else {
        unit_le(units[0]) + unit_le(units[1])
    }
}

/// The UTF-16BE bytes of one character.
pub open spec fn char_utf16be(c: char) -> Seq<u8> {
    let units = utf16_units(c);
    if units.len() == 1 {
        unit_be(units[0])
    } else {
        unit_be(units[0]) + unit_be(units[1])
    }
}

/// The UTF-16LE encoding of a text, without byte order mark.
pub open spec fn utf16le_bytes(s: Seq<char>) -> Seq<u8>
    decreases s.len(),
{
    if s.len() == 0 {
        seq![]
    } else {
        utf16le_bytes(s.drop_last()) + char_utf16le(s.last())
    }
}

/// The UTF-16BE encoding of a text, without byte order mark.
pub open spec fn utf16be_bytes(s: Seq<char>) -> Seq<u8>
    decreases s.len(),
{
    if s.len() == 0 {
        seq![]
    } else {
        utf16be_bytes(s.drop_last()) + char_utf16be(s.last())
    }
}

/// The other byte of the two-byte code unit that holds position `i`.
pub open spec fn unit_partner(i: int) -> int {
    if i % 2 == 0 {
        i + 1
    } else {
        i - 1
    }
}

/// `b` is `a` with the two bytes of every code unit swapped.
pub open spec fn byte_swapped(a: Seq<u8>, b: Seq<u8>) -> bool {
    &&& a.len() == b.len()
    &&& a.len() % 2 == 0
    &&& forall|i: int| 0 <= i < b.len() ==> #[trigger] b[i] == a[unit_partner(i)]
}

proof fn lemma_byte_swapped_concat(a1: Seq<u8>, b1: Seq<u8>, a2: Seq<u8>, b2: Seq<u8>)
    requires
        byte_swapped(a1, b1),
        byte_swapped(a2, b2),
    ensures
        byte_swapped(a1 + a2, b1 + b2),
{
    let a = a1 + a2;
    let b = b1 + b2;
    assert forall|i: int| 0 <= i < b.len() implies #[trigger] b[i] == a[unit_partner(i)] by {
        if i < b1.len() {
            assert(b[i] == b1[i]);
            assert(0 <= unit_partner(i) < a1.len());
        } else {
            let j = i - b1.len();
            assert(b[i] == b2[j]);
            assert(unit_partner(i) - a1.len() == unit_partner(j));
            assert(b2[j] == a2[unit_partner(j)]);
        }
    }
}

proof fn lemma_char_utf16_swapped(c: char)
    ensures
        byte_swapped(char_utf16le(c), char_utf16be(c)),
{
    let units = utf16_units(c);
    assert(byte_swapped(unit_le(units[0]), unit_be(units[0])));
    if units.len() != 1 {
        assert(byte_swapped(unit_le(units[1]), unit_be(units[1])));
        lemma_byte_swapped_concat(unit_le(units[0]), unit_be(units[0]), unit_le(units[1]), unit_be(units[1]));
    }
}

/// The UTF-16BE encoding of a text is its UTF-16LE encoding with the two bytes of every code
/// unit swapped, with or without the byte order marks in front.
pub proof fn lemma_utf16_byte_orders(s: Seq<char>)
    ensures
        byte_swapped(utf16le_bytes(s), utf16be_bytes(s)),
        byte_swapped(bom_utf16le() + utf16le_bytes(s), bom_utf16be() + utf16be_bytes(s)),
    decreases s.len(),
{
    assert(byte_swapped(bom_utf16le(), bom_utf16be()));
    if s.len() == 0 {
        lemma_byte_swapped_concat(bom_utf16le(), bom_utf16be(), utf16le_bytes(s), utf16be_bytes(s));
    } else {
        lemma_utf16_byte_orders(s.drop_last());
        lemma_char_utf16_swapped(s.last());
        lemma_byte_swapped_concat(
            utf16le_bytes(s.drop_last()),
            utf16be_bytes(s.drop_last()),
            char_utf16le(s.last()),
            char_utf16be(s.last()),
        );
        lemma_byte_swapped_concat(bom_utf16le(), bom_utf16be(), utf16le_bytes(s), utf16be_bytes(s));
    }
}

/// The UTF-16LE byte order mark.
pub open spec fn bom_utf16le() -> Seq<u8> {
    seq![0xFFu8, 0xFEu8]
}

/// The UTF-16BE byte order mark.
pub open spec fn bom_utf16be() -> Seq<u8> {
    seq![0xFEu8, 0xFFu8]
}

/// The UTF-8 byte order mark.
pub open spec fn bom_utf8() -> Seq<u8> {
    seq![0xEFu8, 0xBBu8, 0xBFu8]
}

/// Pushes the bytes of one code unit, least significant first.
fn push_unit_le(out: &mut Vec<u8>, u: u16)
    ensures
        final(out)@ == old(out)@ + unit_le(u),
{
    out.push((u % 256) as u8);
    out.push((u / 256) as u8);
    assert(final(out)@ =~= old(out)@ + unit_le(u));
}

/// Pushes the bytes of one code unit, most significant first.
fn push_unit_be(out: &mut Vec<u8>, u: u16)
    ensures
        final(out)@ == old(out)@ + unit_be(u),
{
    out.push((u / 256) as u8);
    out.push((u % 256) as u8);
    assert(final(out)@ =~= old(out)@ + unit_be(u));
}

/// The UTF-16 code units of one character, as a pair (the second is used for
/// characters outside the basic multilingual plane).
fn char_units(c: char) -> (r: (u16, Option<u16>))
    ensures
        utf16_units(c).len() == 1 ==> r.1 is None && r.0 == utf16_units(c)[0],
        utf16_units(c).len() == 2 ==> r.1 == Some(utf16_units(c)[1]) && r.0 == utf16_units(c)[0],
        utf16_units(c).len() == 1 || utf16_units(c).len() == 2,
{
    let v: u32 = c as u32;
    if v < 0x10000 {
        (v as u16, None)
    } else {
        proof {
            vstd::utf8::char_is_scalar(c);
        }
        let w: u32 = v - 0x10000;
        let hi: u16 = (0xD800 + w / 1024) as u16;
        let lo: u16 = (0xDC00 + w % 1024) as u16;
        (hi, Some(lo))
    }
}

/// The UTF-16LE encoding of `text`, after a byte order mark when `write_bom` is set.
fn encode_utf16le(text: &str, write_bom: bool) -> (r: Vec<u8>)
    ensures
        r@ == (if write_bom {
            bom_utf16le()
        } else {
            Seq::<u8>::empty()
        }) + utf16le_bytes(text@),
{
    let mut out: Vec<u8> = Vec::new();
    if write_bom {
        out.push(0xFF);
        out.push(0xFE);
    }
    let ghost prefix = out@;
    assert(prefix =~= (if write_bom {
        bom_utf16le()
    } else {
        Seq::<u8>::empty()
    }));
    for c in it: text.chars()
        invariant
            out@ == prefix + utf16le_bytes(it.seq().take(it.index() as int)),
            it.seq() == text@,
    {
        let ghost before = out@;
        let (first, second) = char_units(c);
        push_unit_le(&mut out, first);
        if let Some(s) = second {
            push_unit_le(&mut out, s);
        }
        proof {
            let t = it.seq().take(it.index() + 1);
            assert(t.drop_last() =~= it.seq().take(it.index() as int));
            assert(t.last() == c);
            assert(out@ =~= prefix + utf16le_bytes(t));
        }
    }
    assert(text@.take(text@.len() as int) =~= text@);
    out
}

/// The UTF-16BE encoding of `text`, after a byte order mark when `write_bom` is set.
fn encode_utf16be(text: &str, write_bom: bool) -> (r: Vec<u8>)
    ensures
        r@ == (if write_bom {
            bom_utf16be()
        } else {
            Seq::<u8>::empty()
        }) + utf16be_bytes(text@),
{
    let mut out: Vec<u8> = Vec::new();
    if write_bom {
        out.push(0xFE);
        out.push(0xFF);
    }
    let ghost prefix = out@;
    assert(prefix =~= (if write_bom {
        bom_utf16be()
    } else {
        Seq::<u8>::empty()
    }));
    for c in it: text.chars()
        invariant
            out@ == prefix + utf16be_bytes(it.seq().take(it.index() as int)),
            it.seq() == text@,
    {
        let ghost before = out@;
        let (first, second) = char_units(c);
        push_unit_be(&mut out, first);
        if let Some(s) = second {
            push_unit_be(&mut out, s);
        }
        proof {
            let t = it.seq().take(it.index() + 1);
            assert(t.drop_last() =~= it.seq().take(it.index() as int));
            assert(t.last() == c);
            assert(out@ =~= prefix + utf16be_bytes(t));
        }
    }
    assert(text@.take(text@.len() as int) =~= text@);
    out
}

/// `utf-16le`, as characters.
pub open spec fn name_utf_16le() -> Seq<char> {
    seq!['u', 't', 'f', '-', '1', '6', 'l', 'e']
}

/// `utf-16be`, as characters.
pub open spec fn name_utf_16be() -> Seq<char> {
    seq!['u', 't', 'f', '-', '1', '6', 'b', 'e']
}

/// `utf-8`, as characters.
pub open spec fn name_utf_8() -> Seq<char> {
    seq!['u', 't', 'f', '-', '8']
}

/// The outcome once `encoding_rs` has encoded into the encoding named `to`: unmappable
/// characters fail strict mode, and UTF-8 output gets a byte order mark when asked for.
pub open spec fn encoded_outcome(bytes: Seq<u8>, had_errors: bool, to: Seq<char>, opts: ConvertOptions) -> ConvertOutcome {
    let to_lower = ascii_lower(to);
    if opts.strict && had_errors {
        ConvertOutcome::Encode(to_lower)
    } else if opts.write_bom && to_lower == name_utf_8() {
        ConvertOutcome::Bytes(bom_utf8() + bytes)
    } else {
        ConvertOutcome::Bytes(bytes)
    }
}

/// The outcome once the input is decoded: malformed input fails strict mode, otherwise
/// the text is encoded into the encoding named `to`.
pub open spec fn decoded_outcome(
    text: Seq<char>,
    had_errors: bool,
    from: Seq<char>,
    to: Seq<char>,
    opts: ConvertOptions,
) -> ConvertOutcome {
    if opts.strict && had_errors {
        ConvertOutcome::Decode(ascii_lower(from))
    } else {
        spec_encode_outcome(text, to, opts)
    }
}

/// The outcome of encoding `text` into the encoding named `to`.
///
/// UTF-16 targets are encoded here (optionally after a byte order mark); every other target
/// goes through `encoding_rs`, whose unmappable characters fail strict mode, and UTF-8 output
/// gets a byte order mark when asked for.
pub open spec fn spec_encode_outcome(text: Seq<char>, to: Seq<char>, opts: ConvertOptions) -> ConvertOutcome {
    let to_lower = ascii_lower(to);
    if to_lower == name_utf_16le() {
        ConvertOutcome::Bytes(
            (if opts.write_bom {
                bom_utf16le()
            } else {
                Seq::<u8>::empty()
            }) + utf16le_bytes(text),
        )
    } else if to_lower == name_utf_16be() {
        ConvertOutcome::Bytes(
            (if opts.write_bom {
                bom_utf16be()
            } else {
                Seq::<u8>::empty()
            }) + utf16be_bytes(text),
        )
    } else if !spec_is_supported(to) {
        ConvertOutcome::Unsupported(to_lower)
    } else {
        match whatwg_encoding_name(lookup_label(to)) {
            None => ConvertOutcome::Unresolvable(to_lower),
            Some(name) => encoded_outcome(whatwg_encode(name, text).0, whatwg_encode(name, text).1, to, opts),
        }
    }
}

/// The outcome of converting `input` from the encoding named `from` to the one named `to`.
///
/// Empty input converts to empty output; binary input is refused; the source name must
/// resolve; strict mode refuses malformed input; the decoded text is then encoded.
pub open spec fn spec_convert(
    input: Seq<u8>,
    from: Seq<char>,
    to: Seq<char>,
    opts: ConvertOptions,
) -> ConvertOutcome {
    if input.len() == 0 {
        ConvertOutcome::Bytes(Seq::<u8>::empty())
    } else if spec_looks_binary(input) {
        ConvertOutcome::Binary
    } else if !spec_is_supported(from) {
        ConvertOutcome::Unsupported(ascii_lower(from))
    } else {
        match whatwg_encoding_name(lookup_label(from)) {
            None => ConvertOutcome::Unresolvable(ascii_lower(from)),
            Some(name) => decoded_outcome(whatwg_decode(name, input).0, whatwg_decode(name, input).1, from, to, opts),
        }
    }
}

/// `bytes` with the UTF-8 byte order mark in front.
fn prepend_utf8_bom(bytes: Vec<u8>) -> (r: Vec<u8>)
    ensures
        r@ == bom_utf8() + bytes@,
{
    let mut rest = bytes;
    let mut with_bom: Vec<u8> = Vec::new();
    with_bom.push(0xEF);
    with_bom.push(0xBB);
    with_bom.push(0xBF);
    with_bom.append(&mut rest);
    assert(with_bom@ =~= bom_utf8() + bytes@);
    with_bom
}

/// Finishes an encoding into the encoding named `to`, given what `encoding_rs` produced:
/// the bytes and whether it replaced unmappable characters.
pub fn finish_encoding(
    encoded: Vec<u8>,
    had_errors: bool,
    to: &str,
    opts: &ConvertOptions,
) -> (r: Result<Vec<u8>, ConvertError>)
    ensures
        outcome_of(r, encoded_outcome(encoded@, had_errors, to@, *opts)),
{
    let to_lower = to_ascii_lowercase(to);
    if opts.strict && had_errors {
        return Err(ConvertError::EncodeError { to: to_lower });
    }
    proof {
        reveal_strlit("utf-8");
        assert("utf-8"@ =~= name_utf_8());
    }
    if opts.write_bom && str_eq(to_lower.as_str(), "utf-8") {
        return Ok(prepend_utf8_bom(encoded));
    }
    Ok(encoded)
}

/// Finishes a conversion given the decoded text and whether decoding replaced malformed
/// input: strict mode refuses such input, otherwise the text is encoded into `to`.
pub fn finish_decoding(
    decoded: &str,
    had_errors: bool,
    from: &str,
    to: &str,
    opts: &ConvertOptions,
) -> (r: Result<Vec<u8>, ConvertError>)
    ensures
        outcome_of(r, decoded_outcome(decoded@, had_errors, from@, to@, *opts)),
        !opts.strict && spec_is_supported(to@) ==> r is Ok,
        !(opts.strict && had_errors) && ascii_lower(to@) == name_utf_8() ==> outcome_of(
            r,
            ConvertOutcome::Bytes(
                (if opts.write_bom {
                    bom_utf8()
                } else {
                    Seq::<u8>::empty()
                }) + vstd::utf8::encode_utf8(decoded@),
            ),
        ),
{
    if opts.strict && had_errors {
        return Err(ConvertError::DecodeError { from: to_ascii_lowercase(from) });
    }
    encode_string(decoded, to, opts)
}

/// Encodes `decoded` into the encoding named `to`.
pub fn encode_string(decoded: &str, to: &str, opts: &ConvertOptions) -> (r: Result<Vec<u8>, ConvertError>)
    ensures
        outcome_of(r, spec_encode_outcome(decoded@, to@, *opts)),
        !opts.strict && spec_is_supported(to@) ==> r is Ok,
        ascii_lower(to@) == name_utf_8() ==> outcome_of(
            r,
            ConvertOutcome::Bytes(
                (if opts.write_bom {
                    bom_utf8()
                } else {
                    Seq::<u8>::empty()
                }) + vstd::utf8::encode_utf8(decoded@),
            ),
        ),
{
    let to_lower = to_ascii_lowercase(to);
    proof {
        reveal_strlit("utf-16le");
        reveal_strlit("utf-16be");
        reveal_strlit("utf-8");
        assert("utf-16le"@ =~= name_utf_16le());
        assert("utf-16be"@ =~= name_utf_16be());
        assert("utf-8"@ =~= name_utf_8());
        lemma_utf8_name_resolves(to@);
    }
    if str_eq(to_lower.as_str(), "utf-16le") {
        proof {
            assert(name_utf_16le() != name_utf_8());
        }
        return Ok(encode_utf16le(decoded, opts.write_bom));
    }
    if str_eq(to_lower.as_str(), "utf-16be") {
        proof {
            assert(name_utf_16be()[7] != name_utf_8()[4]);
        }
        return Ok(encode_utf16be(decoded, opts.write_bom));
    }
    let codec = match lookup_encoding(to) {
        Ok(codec) => codec,
        Err(e) => return Err(ConvertError::Encoding(e)),
    };
    let (encoded, had_errors) = encode_with(&codec, decoded);
    proof {
        if ascii_lower(to@) == name_utf_8() {
            assert(encoded@ =~= Seq::<u8>::empty() + vstd::utf8::encode_utf8(decoded@));
            assert(bom_utf8() + encoded@ =~= bom_utf8() + vstd::utf8::encode_utf8(decoded@));
        }
    }
    finish_encoding(encoded, had_errors, to, opts)
}

/// A name whose lower case is `utf-8` is supported and is looked up with the label `utf-8`.
proof fn lemma_utf8_name_resolves(name: Seq<char>)
    ensures
        ascii_lower(name) == name_utf_8() ==> spec_is_supported(name) && lookup_label(name)
            == crate::encodings::utf8_label(),
{
    if ascii_lower(name) == name_utf_8() {
        crate::encodings::lemma_utf8_supported();
        vstd::utf8::is_ascii_chars_encode_utf8(name_utf_8());
        assert(vstd::utf8::encode_utf8(name_utf_8()) =~= crate::encodings::utf8_label());
    }
}

/// Converts `input` from the encoding named `from` to the one named `to`.
pub fn convert_bytes(
    input: &[u8],
    from: &str,
    to: &str,
    opts: &ConvertOptions,
) -> (r: Result<Vec<u8>, ConvertError>)
    ensures
        outcome_of(r, spec_convert(input@, from@, to@, *opts)),
        !opts.strict && spec_is_supported(from@) && spec_is_supported(to@) && !spec_looks_binary(input@) ==> r is Ok,
        ascii_lower(from@) == name_utf_8() && ascii_lower(to@) == name_utf_8() && !opts.write_bom
            && crate::detect::spec_bom(input@) is None && vstd::utf8::valid_utf8(input@) ==> (
        r matches Ok(v) && v@ == input@) || r matches Err(ConvertError::BinaryInput),
        input@.len() > 0 && !spec_looks_binary(input@) && ascii_lower(from@) == name_utf_8() 
            && crate::encodings::utf8_decoded_part(input@) is Some && vstd::utf8::valid_utf8(
            crate::encodings::utf8_decoded_part(input@)->0,
        ) ==> outcome_of(
            r,
            decoded_outcome(
                vstd::utf8::decode_utf8(crate::encodings::utf8_decoded_part(input@)->0),
                false,
                from@,
                to@,
                *opts,
            ),
        ),
        input@.len() > 0 && ascii_lower(to@) == name_utf_8() && r is Ok ==> (exists|name: Seq<char>|
            #![trigger whatwg_decode(name, input@)]
            whatwg_encoding_name(lookup_label(from@)) == Some(name) && outcome_of(
                r,
                ConvertOutcome::Bytes(
                    (if opts.write_bom {
                        bom_utf8()
                    } else {
                        Seq::<u8>::empty()
                    }) + vstd::utf8::encode_utf8(whatwg_decode(name, input@).0),
                ),
            )),
{
    if input.len() == 0 {
        return Ok(Vec::new());
    }
    if is_binary_content(input) {
        return Err(ConvertError::BinaryInput);
    }
    let from_codec = match lookup_encoding(from) {
        Ok(codec) => codec,
        Err(e) => return Err(ConvertError::Encoding(e)),
    };
    let (decoded, decode_had_errors) = decode_with(&from_codec, input);
    proof {
        if ascii_lower(from@) == name_utf_8() && crate::detect::spec_bom(input@) is None
            && vstd::utf8::valid_utf8(input@) {
            vstd::utf8::decode_utf8_encode_utf8(input@);
            assert(Seq::<u8>::empty() + vstd::utf8::encode_utf8(decoded@) =~= input@);
        }
    }
    finish_decoding(decoded.as_str(), decode_had_errors, from, to, opts)
}

/// The message text of a conversion error.
pub open spec fn convert_error_text(e: ConvertError) -> Seq<char> {
    match e {
        ConvertError::Encoding(err) => crate::encodings::encoding_error_text(err),
        ConvertError::BinaryInput => "binary content"@,
        ConvertError::DecodeError { from } => "failed to decode as "@ + from@,
        ConvertError::EncodeError { to } => "failed to encode as "@ + to@,
        ConvertError::InputNotFound(path) => "path not found: "@ + path@,
        ConvertError::OutputExists(path) => "output file exists: "@ + path@ + " (use --force)"@,
        ConvertError::SamePathWithoutForce => "output path equals input path (use --force to overwrite)"@,
        ConvertError::Io(msg) => msg@,
    }
}

impl ConvertError {
    /// The human-readable message of this error.
    pub fn message(&self) -> (r: String)
        ensures
            r@ == convert_error_text(*self),
    {
        match self {
            ConvertError::Encoding(err) => err.message(),
            ConvertError::BinaryInput => to_owned_string("binary content"),
            ConvertError::DecodeError { from } => {
                let mut r = to_owned_string("failed to decode as ");
                append_str(&mut r, from.as_str());
                r
            },
            ConvertError::EncodeError { to } => {
                let mut r = to_owned_string("failed to encode as ");
                append_str(&mut r, to.as_str());
                r
            },
            ConvertError::InputNotFound(path) => {
                let mut r = to_owned_string("path not found: ");
                append_str(&mut r, path.as_str());
                r
            },
            ConvertError::OutputExists(path) => {
                let mut r = to_owned_string("output file exists: ");
                append_str(&mut r, path.as_str());
                append_str(&mut r, " (use --force)");
                r
            },
            ConvertError::SamePathWithoutForce => to_owned_string(
                "output path equals input path (use --force to overwrite)",
            ),
            ConvertError::Io(msg) => to_owned_string(msg.as_str()),
        }
    }
}

/// What is known of the output path of a conversion before it runs.
#[derive(Debug, Clone)]
pub struct OutputTarget {
    /// The output path, as text.
    pub path: String,
    /// The output path equals the input path.
    pub same_as_input: bool,
    /// A file or directory already exists at the output path.
    pub exists: bool,
}

/// Checks the paths of a file conversion before anything is read or written: the input must
/// be a file, and without `force` the output may be neither the input nor an existing file.
pub fn check_convert_paths(
    input_path: &str,
    input_is_file: bool,
    output: Option<&OutputTarget>,
    force: bool,
) -> (r: Result<(), ConvertError>)
    ensures
        !input_is_file ==> (r matches Err(ConvertError::InputNotFound(p)) && p@ == input_path@),
        input_is_file && output is None ==> r is Ok,
        input_is_file ==> (output matches Some(t) ==> (if t.same_as_input && !force {
            r matches Err(ConvertError::SamePathWithoutForce)
        } else if t.exists && !force {
            r matches Err(ConvertError::OutputExists(p)) && p@ == t.path@
        } else {
            r is Ok
        })),
{
    if !input_is_file {
        return Err(ConvertError::InputNotFound(to_owned_string(input_path)));
    }
    if let Some(target) = output {
        if target.same_as_input && !force {
            return Err(ConvertError::SamePathWithoutForce);
        }
        if target.exists && !force {
            return Err(ConvertError::OutputExists(to_owned_string(target.path.as_str())));
        }
    }
    Ok(())
}

} // verus!

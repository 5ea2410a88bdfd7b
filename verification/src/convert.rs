//! Converting a validator of a blueprint into the envelope that `cardano-cli`
//! reads: the title by which the validator is picked, and the hex text of
//! its program wrapped as a CBOR byte string.

use vstd::prelude::*;
use vstd::string::StringExecFns;

verus! {

/// The formats that a blueprint can be converted to.
#[derive(Clone, Copy, Debug, PartialEq, Eq, Structural)]
pub enum Format {
    CardanoCli,
}

/// What the conversion is asked to do.
#[derive(Debug, PartialEq, Eq)]
pub struct Args {
    /// Path to the project.
    pub directory: Option<String>,
    /// Name of the validator's module within the project.
    pub module: Option<String>,
    /// Name of the validator within the module.
    pub validator: Option<String>,
    /// Format to convert to.
    pub to: Format,
}

/// The value of an optional text.
pub open spec fn text_view(text: Option<String>) -> Option<Seq<char>> {
    match text {
        Some(s) => Some(s@),
        None => None,
    }
}

/// The title under which a validator is looked up: the module's name, a dot
/// and the validator's name; one of the two alone where the other is not
/// given.
pub open spec fn title_of(module: Option<Seq<char>>, validator: Option<Seq<char>>) -> Option<
    Seq<char>,
> {
    match module {
        Some(m) => match validator {
            Some(v) => Some(m + seq!['.'] + v),
            None => Some(m),
        },
        None => validator,
    }
}

impl Args {
    /// The title of the validator that is asked for, if any is named.
    pub fn title(&self) -> (r: Option<String>)
        ensures
            text_view(r) == title_of(text_view(self.module), text_view(self.validator)),
    {
        match &self.module {
            Some(m) => {
                let mut title = m.clone();
                match &self.validator {
                    Some(v) => {
                        proof {
                            reveal_strlit(".");
                        }
                        title.append(".");
                        title.append(v.as_str());
                        assert(title@ =~= m@ + seq!['.'] + v@);
                    },
                    None => {},
                }
                Some(title)
            },
            None => match &self.validator {
                Some(v) => Some(v.clone()),
                None => None,
            },
        }
    }
}

/// The byte of `n` that stands `place` bytes above the lowest.
pub open spec fn byte_at(n: nat, place: nat) -> u8
    decreases place,
{
    if place == 0 {
        (n % 256) as u8
    } else {
        byte_at(n / 256, (place - 1) as nat)
    }
}

/// The head of a CBOR byte string of `len` bytes: the major type with the
/// length, in the shortest of the five forms that holds it, big-endian.
pub open spec fn cbor_bytes_head(len: nat) -> Seq<u8> {
    if len <= 0x17 {
        seq![(0x40 + len) as u8]
    } else if len <= 0xff {
        seq![0x58u8, byte_at(len, 0)]
    } else if len <= 0xffff {
        seq![0x59u8, byte_at(len, 1), byte_at(len, 0)]
    } else if len <= 0xffff_ffff {
        seq![0x5au8, byte_at(len, 3), byte_at(len, 2), byte_at(len, 1), byte_at(len, 0)]
    } else {
        seq![
            0x5bu8,
            byte_at(len, 7),
            byte_at(len, 6),
            byte_at(len, 5),
            byte_at(len, 4),
            byte_at(len, 3),
            byte_at(len, 2),
            byte_at(len, 1),
            byte_at(len, 0),
        ]
    }
}

/// The CBOR encoding of `bytes` as a byte string of definite length.
pub open spec fn cbor_byte_string(bytes: Seq<u8>) -> Seq<u8> {
    cbor_bytes_head(bytes.len()) + bytes
}

/// The lower-case hexadecimal digit for `n`.
pub open spec fn hex_digit(n: int) -> char {
    seq!['0', '1', '2', '3', '4', '5', '6', '7', '8', '9', 'a', 'b', 'c', 'd', 'e', 'f'][n]
}

/// The text of `bytes` in lower-case hexadecimal digits, two for each byte,
/// the high half first.
pub open spec fn hex_text(bytes: Seq<u8>) -> Seq<char> {
    Seq::new(
        2 * bytes.len(),
        |i: int|
            if i % 2 == 0 {
                hex_digit(bytes[i / 2] as int / 16)
            } else {
                hex_digit(bytes[i / 2] as int % 16)
            },
    )
}

/// Encodes bytes as a CBOR byte string with `minicbor`'s
/// `Encoder::bytes`, into a fresh vector. Trusted: the result is the head
/// for the length followed by the bytes; writing into a vector cannot fail.
#[verifier::external_body]
pub(crate) fn encode_cbor_bytes(bytes: &[u8]) -> (r: Vec<u8>)
    ensures
        r@ == cbor_byte_string(bytes@),
{
    let mut encoder = pallas_codec::minicbor::Encoder::new(Vec::new());
    let _ = encoder.bytes(bytes);
    encoder.into_writer()
}

/// Writes bytes in hexadecimal with `hex::encode`. Trusted: the result has
/// two lower-case digits for each byte, the high half first.
#[verifier::external_body]
pub(crate) fn encode_hex(bytes: &[u8]) -> (r: String)
    ensures
        r@ == hex_text(bytes@),
{
    hex::encode(bytes)
}

/// The `cborHex` text of an envelope for `cardano-cli`: the program's CBOR
/// bytes, wrapped once more as a CBOR byte string, in hexadecimal.
pub fn cardano_cli_cbor_hex(program_cbor: &[u8]) -> (r: String)
    ensures
        r@ == hex_text(cbor_byte_string(program_cbor@)),
{
    let double_cbor_bytes = encode_cbor_bytes(program_cbor);
    encode_hex(double_cbor_bytes.as_slice())
}

impl Format {
    /// The text that stands for a program in this format.
    pub fn encode_program(&self, program_cbor: &[u8]) -> (r: String)
        ensures
            r@ == hex_text(cbor_byte_string(program_cbor@)),
    {
        match self {
            Format::CardanoCli => cardano_cli_cbor_hex(program_cbor),
        }
    }
}

} // verus!

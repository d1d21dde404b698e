//! The key-hash address.

use crate::address::{Address, AddressError, AddressFault};
use crate::codec::base16::hex_text;
use crate::keyhash::format::{FormatView, KeyHashFormat};
use crate::keyhash::laws::{lemma_parsed_payload, round_trip_bech32, round_trip_hex};
use crate::keyhash::layout::{
    base58check_parse, base58check_text, bech32_parse, bech32_text, hex_parse, read_base58check,
    read_bech32, read_hex, write_base58check, write_bech32, write_hex, PAYLOAD_BYTES,
};
use vstd::prelude::*;

verus! {

/// An address as a value of specifications: the hash, and the format that
/// it was made or checked under.
pub struct AddressView {
    pub payload: Seq<u8>,
    pub format: FormatView,
}

/// The text of a hash under a format.
pub open spec fn text_spec(payload: Seq<u8>, format: FormatView) -> Seq<char> {
    match format {
        FormatView::Base58Check { version } => base58check_text(version, payload),
        FormatView::Bech32 { prefix } => bech32_text(prefix, payload),
        FormatView::Hex => hex_text(payload),
    }
}

/// The hash that a text holds under a format, or why it holds none.
pub open spec fn payload_spec(text: Seq<char>, format: FormatView) -> Result<Seq<u8>, AddressFault> {
    match format {
        FormatView::Base58Check { version } => base58check_parse(text, version),
        FormatView::Bech32 { prefix } => bech32_parse(text, prefix),
        FormatView::Hex => hex_parse(text),
    }
}

/// The address that a text holds under a format, or why it holds none.
pub open spec fn parse_spec(text: Seq<char>, format: FormatView) -> Result<
    AddressView,
    AddressFault,
> {
    match payload_spec(text, format) {
        Ok(payload) => Ok(AddressView { payload, format }),
        Err(fault) => Err(fault),
    }
}

/// The hash of a public key, with the format that it was made or checked
/// under. Its text under that format has passed every check of the format.
#[derive(Debug, PartialEq, Eq)]
pub struct KeyHashAddress {
    payload: Vec<u8>,
    format: KeyHashFormat,
}

impl View for KeyHashAddress {
    type V = AddressView;

    closed spec fn view(&self) -> AddressView {
        AddressView { payload: self.payload@, format: self.format@ }
    }
}

impl KeyHashAddress {
    #[verifier::type_invariant]
    spec fn sized(&self) -> bool {
        self.payload@.len() == PAYLOAD_BYTES
    }

    /// The address of a hash under a format.
    pub(crate) fn new(payload: Vec<u8>, format: KeyHashFormat) -> (address: Self)
        requires
            payload@.len() == PAYLOAD_BYTES,
        ensures
            address@ == (AddressView { payload: payload@, format: format@ }),
    {
        KeyHashAddress { payload, format }
    }

    /// The twenty bytes of the hash.
    pub fn payload(&self) -> (payload: &[u8])
        ensures
            payload@ == self@.payload,
            payload@.len() == PAYLOAD_BYTES,
    {
        proof {
            use_type_invariant(self);
        }
        self.payload.as_slice()
    }

    /// The format that the address was made or checked under.
    pub fn format(&self) -> (format: &KeyHashFormat)
        ensures
            format@ == self@.format,
    {
        &self.format
    }
}

impl Clone for KeyHashAddress {
    fn clone(&self) -> (copy: Self)
        ensures
            copy@ == self@,
    {
        proof {
            use_type_invariant(self);
        }
        KeyHashAddress { payload: self.payload.clone(), format: self.format.clone() }
    }
}

impl Address for KeyHashAddress {
    type Format = KeyHashFormat;

    open spec fn parse_spec(text: Seq<char>, format: FormatView) -> Result<
        AddressView,
        AddressFault,
    > {
        parse_spec(text, format)
    }

    open spec fn text_spec(address: AddressView, format: FormatView) -> Seq<char> {
        text_spec(address.payload, format)
    }

    open spec fn format_spec(address: AddressView) -> FormatView {
        address.format
    }

    fn parse(text: &str, format: &KeyHashFormat) -> (r: Result<Self, AddressError>)
        ensures
            r matches Ok(address) ==> address@.payload.len() == PAYLOAD_BYTES,
    {
        let read: Result<Vec<u8>, AddressError> = match format {
            KeyHashFormat::Base58Check { version } => read_base58check(text, *version),
            KeyHashFormat::Bech32 { prefix } => read_bech32(text, prefix.as_str()),
            KeyHashFormat::Hex => read_hex(text),
        };
        match read {
            Ok(payload) => {
                proof {
                    lemma_parsed_payload(text@, format@);
                }
                Ok(KeyHashAddress::new(payload, format.clone()))
            },
            Err(error) => Err(error),
        }
    }

    fn to_string(&self, format: &KeyHashFormat) -> (text: String)
        ensures
            parse_spec(text@, format@) == Ok::<AddressView, AddressFault>(
                AddressView { payload: self@.payload, format: format@ },
            ),
    {
        let payload: &[u8] = self.payload();
        match format {
            KeyHashFormat::Base58Check { version } => write_base58check(*version, payload),
            KeyHashFormat::Bech32 { prefix } => {
                let prefix_text: &str = prefix.as_str();
                proof {
                    round_trip_bech32(payload@, prefix_text@);
                }
                write_bech32(prefix_text, payload)
            },
            KeyHashFormat::Hex => {
                proof {
                    round_trip_hex(payload@);
                }
                write_hex(payload)
            },
        }
    }

    fn is_valid(text: &str, format: &KeyHashFormat) -> (valid: bool) {
        match Self::parse(text, format) {
            Ok(_) => true,
            Err(_) => false,
        }
    }
}

} // verus!

//! The first layer of a dictionary file: the XML header and what it says
//! of the file.
//!
//! The file opens with the big-endian length of the XML text, the text in
//! UTF-16 (little-endian), and the little-endian Adler-32 checksum of the
//! text's bytes.

use vstd::prelude::*;
use vstd::string::StringSliceAdditionalSpecFns;
use vstd::utf8::decode_utf8;
use vstd::utf8::encode_utf8;
use vstd::utf8::valid_utf8;
use crate::checksum::adler32;
use crate::checksum::adler32_of;
use crate::error::MDictError;
use crate::number::decimal;
use crate::number::parse_decimal;
use crate::number::parse_version;
use crate::number::version_of;
use crate::order::fold_case;
use crate::order::folded;
use crate::order::same_bytes;
use crate::text::decode_text;
use crate::text::legacy_text;
use crate::text::string_from_utf8;
use crate::text::LegacyEncoding;
use crate::text::MDictEncoding;
use crate::wire::be32;
use crate::wire::le32;
use crate::wire::read_be_u32;
use crate::wire::read_le_u32;
use crate::xml::attribute;
use crate::xml::find_attribute;

verus! {

/// What a dictionary file holds: headwords with their definitions, or
/// virtual paths with their resources.
#[derive(Clone, Copy, Debug, PartialEq, Eq, Structural)]
pub enum MDictMode {
    /// Headwords and definitions; payloads are text.
    Mdx,
    /// Paths and resources; payloads are opaque bytes.
    Mdd,
}

/// The configuration of a dictionary file.
#[derive(Clone, Debug)]
pub struct MDictHeader {
    /// The major number of the engine version that wrote the file.
    pub version_major: u32,
    /// The minor number of the engine version that wrote the file.
    pub version_minor: u32,
    /// The encoding of keywords and definitions.
    pub encoding: MDictEncoding,
    /// Whether the key-block directory is scrambled.
    pub key_header_encrypted: bool,
    /// Whether the records are scrambled under the user's key.
    pub key_index_encrypted: bool,
    /// The user's key, if one was supplied.
    pub encrypt_key: Option<Vec<u8>>,
    /// The number of entries that the record directory announces.
    pub record_count: u64,
    /// The number of entries that the key directory announces.
    pub key_count: u64,
    /// The title of the dictionary.
    pub title: String,
    /// The description of the dictionary.
    pub description: String,
    /// The date on which the dictionary was made.
    pub creation_date: String,
    /// The name the dictionary is registered by.
    pub register_by: String,
    /// The registration code of the dictionary.
    pub reg_code: String,
}

/// A header as contracts see it.
pub struct MDictHeaderView {
    pub version_major: u32,
    pub version_minor: u32,
    pub encoding: MDictEncoding,
    pub key_header_encrypted: bool,
    pub key_index_encrypted: bool,
    pub encrypt_key: Option<Seq<u8>>,
    pub record_count: u64,
    pub key_count: u64,
    pub title: Seq<char>,
    pub description: Seq<char>,
    pub creation_date: Seq<char>,
    pub register_by: Seq<char>,
    pub reg_code: Seq<char>,
}

/// The view of an optional key.
pub open spec fn key_view(key: Option<Vec<u8>>) -> Option<Seq<u8>> {
    match key {
        Some(k) => Some(k@),
        None => None,
    }
}

impl View for MDictHeader {
    type V = MDictHeaderView;

    open spec fn view(&self) -> MDictHeaderView {
        MDictHeaderView {
            version_major: self.version_major,
            version_minor: self.version_minor,
            encoding: self.encoding,
            key_header_encrypted: self.key_header_encrypted,
            key_index_encrypted: self.key_index_encrypted,
            encrypt_key: key_view(self.encrypt_key),
            record_count: self.record_count,
            key_count: self.key_count,
            title: self.title@,
            description: self.description@,
            creation_date: self.creation_date@,
            register_by: self.register_by@,
            reg_code: self.reg_code@,
        }
    }
}

impl MDictHeaderView {
    /// Whether the directories use 64-bit counters: they do from version
    /// 2.0 on, and 32-bit counters before.
    pub open spec fn wide(self) -> bool {
        self.version_major >= 2
    }
}

impl MDictHeader {
    /// Whether the directories use 64-bit counters.
    pub fn wide(&self) -> (res: bool)
        ensures
            res == self@.wide(),
    {
        self.version_major >= 2
    }
}

/// The encoding that a label names, whatever the case of its letters.
pub open spec fn encoding_of_label(label: Seq<u8>) -> Option<MDictEncoding> {
    if folded(label) == "utf-8".spec_bytes() {
        Some(MDictEncoding::Utf8)
    } else if folded(label) == "utf-16".spec_bytes() {
        Some(MDictEncoding::Utf16Le)
    } else if folded(label) == "gbk".spec_bytes() {
        Some(MDictEncoding::Gbk)
    } else if folded(label) == "big5".spec_bytes() {
        Some(MDictEncoding::Big5)
    } else if folded(label) == "latin1".spec_bytes() {
        Some(MDictEncoding::Latin1)
    } else {
        None
    }
}

/// The encoding of a file whose header holds `label` as its `Encoding`
/// attribute. A resource file is always UTF-16; a dictionary without a
/// label, or with an empty one, is UTF-8.
pub open spec fn header_encoding(label: Option<Seq<u8>>, mode: MDictMode) -> Option<
    MDictEncoding,
> {
    match mode {
        MDictMode::Mdd => Some(MDictEncoding::Utf16Le),
        MDictMode::Mdx => match label {
            None => Some(MDictEncoding::Utf8),
            Some(l) => if l.len() == 0 {
                Some(MDictEncoding::Utf8)
            } else {
                encoding_of_label(l)
            },
        },
    }
}

/// The flags that the `Encrypted` attribute holds: a decimal number, zero
/// where the attribute is absent or empty.
pub open spec fn encryption_flags(value: Option<Seq<u8>>) -> Option<u32> {
    match value {
        None => Some(0u32),
        Some(v) => if v.len() == 0 {
            Some(0u32)
        } else {
            decimal(v)
        },
    }
}

/// The text of an attribute: empty where the attribute is absent, `None`
/// where its value is not well-formed.
pub open spec fn text_attribute(xml: Seq<u8>, name: Seq<u8>) -> Option<Seq<char>> {
    match attribute(xml, name) {
        None => Some(Seq::<char>::empty()),
        Some(v) => if valid_utf8(v) {
            Some(decode_utf8(v))
        } else {
            None
        },
    }
}

/// The header that the XML text `xml`, given in UTF-8, describes. The
/// counts of entries are not part of the text and stay zero.
#[verifier::opaque]
pub open spec fn header_of(xml: Seq<u8>, mode: MDictMode, key: Option<Seq<u8>>) -> Result<
    MDictHeaderView,
    MDictError,
> {
    let version = match attribute(xml, "GeneratedByEngineVersion".spec_bytes()) {
        Some(v) => version_of(v),
        None => None,
    };
    let encoding = header_encoding(attribute(xml, "Encoding".spec_bytes()), mode);
    let flags = encryption_flags(attribute(xml, "Encrypted".spec_bytes()));
    let title = text_attribute(xml, "Title".spec_bytes());
    let description = text_attribute(xml, "Description".spec_bytes());
    let creation_date = text_attribute(xml, "CreationDate".spec_bytes());
    let register_by = text_attribute(xml, "RegisterBy".spec_bytes());
    let reg_code = text_attribute(xml, "RegCode".spec_bytes());
    if version is None || (version.unwrap().0 != 1 && version.unwrap().0 != 2) {
        Err(MDictError::UnsupportedVersion)
    } else if encoding is None {
        Err(MDictError::UnsupportedEncoding)
    } else if flags is None {
        Err(MDictError::CorruptHeader)
    } else if (flags.unwrap() / 2) % 2 == 1 && key is None {
        Err(MDictError::EncryptionRequired)
    } else if title is None || description is None || creation_date is None || register_by is None
        || reg_code is None {
        Err(MDictError::CorruptHeader)
    } else {
        Ok(
            MDictHeaderView {
                version_major: version.unwrap().0,
                version_minor: version.unwrap().1,
                encoding: encoding.unwrap(),
                key_header_encrypted: flags.unwrap() % 2 == 1,
                key_index_encrypted: (flags.unwrap() / 2) % 2 == 1,
                encrypt_key: key,
                record_count: 0,
                key_count: 0,
                title: title.unwrap(),
                description: description.unwrap(),
                creation_date: creation_date.unwrap(),
                register_by: register_by.unwrap(),
                reg_code: reg_code.unwrap(),
            },
        )
    }
}

/// The bytes of the XML text of a file, once its length and checksum are
/// found to fit.
pub open spec fn xml_region(file: Seq<u8>) -> Result<Seq<u8>, MDictError> {
    if file.len() < 4 || file.len() < 8 + be32(file, 0) {
        Err(MDictError::Io)
    } else {
        let xml = file.subrange(4, 4 + be32(file, 0));
        if adler32_of(xml) != le32(file, 4 + be32(file, 0)) {
            Err(MDictError::CorruptHeader)
        } else {
            Ok(xml)
        }
    }
}

/// The header of a file and the position at which its key prelude begins.
pub open spec fn header_layer(file: Seq<u8>, mode: MDictMode, key: Option<Seq<u8>>) -> Result<
    (MDictHeaderView, int),
    MDictError,
> {
    match xml_region(file) {
        Err(e) => Err(e),
        Ok(xml) => match legacy_text(LegacyEncoding::Utf16Le, xml) {
            None => Err(MDictError::CorruptHeader),
            Some(text) => match header_of(encode_utf8(text), mode, key) {
                Err(e) => Err(e),
                Ok(header) => Ok((header, 8 + be32(file, 0))),
            },
        },
    }
}

/// Reads the encoding that a label names.
pub fn parse_encoding_label(label: &[u8]) -> (res: Option<MDictEncoding>)
    ensures
        res == encoding_of_label(label@),
{
    let lower = fold_case(label);
    if same_bytes(lower.as_slice(), "utf-8".as_bytes()) {
        Some(MDictEncoding::Utf8)
    } else if same_bytes(lower.as_slice(), "utf-16".as_bytes()) {
        Some(MDictEncoding::Utf16Le)
    } else if same_bytes(lower.as_slice(), "gbk".as_bytes()) {
        Some(MDictEncoding::Gbk)
    } else if same_bytes(lower.as_slice(), "big5".as_bytes()) {
        Some(MDictEncoding::Big5)
    } else if same_bytes(lower.as_slice(), "latin1".as_bytes()) {
        Some(MDictEncoding::Latin1)
    } else {
        None
    }
}

/// Reads the text of an attribute.
fn read_text_attribute(xml: &[u8], name: &str) -> (res: Option<String>)
    ensures
        match res {
            Some(s) => text_attribute(xml@, name.spec_bytes()) == Some(s@),
            None => text_attribute(xml@, name.spec_bytes()) is None,
        },
{
    match find_attribute(xml, name.as_bytes()) {
        None => Some(String::new()),
        Some(v) => string_from_utf8(v),
    }
}

/// Reads the header that the XML text `xml`, given in UTF-8, describes.
pub fn parse_attributes(xml: &[u8], mode: MDictMode, key: Option<Vec<u8>>) -> (res: Result<
    MDictHeader,
    MDictError,
>)
    ensures
        match res {
            Ok(h) => header_of(xml@, mode, key_view(key)) == Ok::<MDictHeaderView, MDictError>(h@),
            Err(e) => header_of(xml@, mode, key_view(key)) == Err::<MDictHeaderView, MDictError>(e),
        },
{
    reveal(header_of);
    let version = match find_attribute(xml, "GeneratedByEngineVersion".as_bytes()) {
        Some(v) => parse_version(v.as_slice()),
        None => None,
    };
    let (major, minor) = match version {
        Some((major, minor)) => {
            if major != 1 && major != 2 {
                return Err(MDictError::UnsupportedVersion);
            }
            (major, minor)
        },
        None => { return Err(MDictError::UnsupportedVersion); },
    };
    let encoding = match mode {
        MDictMode::Mdd => MDictEncoding::Utf16Le,
        MDictMode::Mdx => match find_attribute(xml, "Encoding".as_bytes()) {
            None => MDictEncoding::Utf8,
            Some(label) => {
                if label.len() == 0 {
                    MDictEncoding::Utf8
                } else {
                    match parse_encoding_label(label.as_slice()) {
                        Some(e) => e,
                        None => { return Err(MDictError::UnsupportedEncoding); },
                    }
                }
            },
        },
    };
    let flags: u32 = match find_attribute(xml, "Encrypted".as_bytes()) {
        None => 0,
        Some(v) => {
            if v.len() == 0 {
                0
            } else {
                match parse_decimal(v.as_slice()) {
                    Some(f) => f,
                    None => { return Err(MDictError::CorruptHeader); },
                }
            }
        },
    };
    let key_index_encrypted = (flags / 2) % 2 == 1;
    if key_index_encrypted && key.is_none() {
        return Err(MDictError::EncryptionRequired);
    }
    let title = read_text_attribute(xml, "Title");
    let description = read_text_attribute(xml, "Description");
    let creation_date = read_text_attribute(xml, "CreationDate");
    let register_by = read_text_attribute(xml, "RegisterBy");
    let reg_code = read_text_attribute(xml, "RegCode");
    match (title, description, creation_date, register_by, reg_code) {
        (Some(title), Some(description), Some(creation_date), Some(register_by), Some(reg_code)) => {
            Ok(
                MDictHeader {
                    version_major: major,
                    version_minor: minor,
                    encoding,
                    key_header_encrypted: flags % 2 == 1,
                    key_index_encrypted,
                    encrypt_key: key,
                    record_count: 0,
                    key_count: 0,
                    title,
                    description,
                    creation_date,
                    register_by,
                    reg_code,
                },
            )
        },
        _ => Err(MDictError::CorruptHeader),
    }
}

/// Reads the header of a file and the position at which its key prelude
/// begins.
pub fn parse_header(file: &[u8], mode: MDictMode, key: Option<Vec<u8>>) -> (res: Result<
    (MDictHeader, usize),
    MDictError,
>)
    ensures
        match res {
            Ok((h, next)) => header_layer(file@, mode, key_view(key)) == Ok::<
                (MDictHeaderView, int),
                MDictError,
            >((h@, next as int)) && next <= file@.len(),
            Err(e) => header_layer(file@, mode, key_view(key)) == Err::<
                (MDictHeaderView, int),
                MDictError,
            >(e),
        },
{
    let len: usize = match read_be_u32(file, 0) {
        Some(l) => l as usize,
        None => { return Err(MDictError::Io); },
    };
    if file.len() - 4 < 4 || file.len() - 8 < len {
        return Err(MDictError::Io);
    }
    let xml = vstd::slice::slice_subrange(file, 4, 4 + len);
    let stamp: u32 = match read_le_u32(file, 4 + len) {
        Some(s) => s,
        None => { return Err(MDictError::Io); },
    };
    if adler32(xml) != stamp {
        return Err(MDictError::CorruptHeader);
    }
    let text: String = match decode_text(MDictEncoding::Utf16Le, xml) {
        Some(t) => t,
        None => { return Err(MDictError::CorruptHeader); },
    };
    match parse_attributes(text.as_str().as_bytes(), mode, key) {
        Ok(h) => Ok((h, 8 + len)),
        Err(e) => Err(e),
    }
}

} // verus!

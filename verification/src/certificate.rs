//! The device that a printer's certificate names.
//!
//! A certificate is read as far as its subject. Its elements each have a tag, a length and a
//! content, in the distinguished encoding rules of ASN.1.
use crate::text;
use vstd::prelude::*;

verus! {

/// The tag of a list.
pub const SEQUENCE: u8 = 0x30;

/// The tag of a set.
pub const SET: u8 = 0x31;

/// The tag of an object identifier.
pub const OBJECT_IDENTIFIER: u8 = 0x06;

/// The tag of the version of a certificate, which may be left out.
pub const VERSION: u8 = 0xa0;

/// The size of the header of the first element and of its content, where `bytes` begin with the
/// header of one: a tag, and a length in one byte, or in one or two bytes after their number.
pub open spec fn sizes(bytes: Seq<u8>) -> Option<(int, int)> {
    if bytes.len() >= 2 && bytes[1] < 0x80 {
        Some((2, bytes[1] as int))
    } else if bytes.len() >= 3 && bytes[1] == 0x81 {
        Some((3, bytes[2] as int))
    } else if bytes.len() >= 4 && bytes[1] == 0x82 {
        Some((4, 0x100 * bytes[2] + bytes[3]))
    } else {
        None
    }
}

/// The content of the first element, and what follows it, where that element is whole.
pub open spec fn element(bytes: Seq<u8>) -> Option<(Seq<u8>, Seq<u8>)> {
    match sizes(bytes) {
        Some((header, content)) => if header + content <= bytes.len() {
            Some((bytes.subrange(header, header + content), bytes.skip(header + content)))
        } else {
            None
        },
        None => None,
    }
}

/// The content of the first element, where it has the given tag, and what follows it.
pub open spec fn tagged(bytes: Seq<u8>, tag: u8) -> Option<(Seq<u8>, Seq<u8>)> {
    if bytes.len() > 0 && bytes[0] == tag {
        element(bytes)
    } else {
        None
    }
}

/// What follows the first `n` elements.
pub open spec fn after_elements(bytes: Seq<u8>, n: nat) -> Option<Seq<u8>>
    decreases n,
{
    if n == 0 {
        Some(bytes)
    } else {
        match element(bytes) {
            Some((_, rest)) => after_elements(rest, (n - 1) as nat),
            None => None,
        }
    }
}

/// The attributes of the subject of a certificate, which follows a version, where there is one, a
/// serial number, an algorithm, an issuer and a validity.
pub open spec fn subject(certificate: Seq<u8>) -> Option<Seq<u8>> {
    match tagged(certificate, SEQUENCE) {
        Some((whole, _)) => match tagged(whole, SEQUENCE) {
            Some((fields, _)) => {
                let skipped: nat = if fields.len() > 0 && fields[0] == VERSION {
                    5
                } else {
                    4
                };
                match after_elements(fields, skipped) {
                    Some(rest) => match tagged(rest, SEQUENCE) {
                        Some((attributes, _)) => Some(attributes),
                        None => None,
                    },
                    None => None,
                }
            },
            None => None,
        },
        None => None,
    }
}

/// Whether `identifier` is that of a common name.
pub open spec fn names_common_name(identifier: Seq<u8>) -> bool {
    identifier == seq![0x55u8, 0x04u8, 0x03u8]
}

/// The value of an attribute, where it is a common name.
pub open spec fn common_name_of(attribute: Seq<u8>) -> Option<Seq<u8>> {
    match tagged(attribute, OBJECT_IDENTIFIER) {
        Some((identifier, rest)) => if names_common_name(identifier) {
            match element(rest) {
                Some((value, _)) => Some(value),
                None => None,
            }
        } else {
            None
        },
        None => None,
    }
}

/// The first common name among the sets of attributes. Of a set, the first attribute counts.
pub open spec fn common_name(attributes: Seq<u8>) -> Option<Seq<u8>>
    decreases attributes.len(),
{
    match tagged(attributes, SET) {
        Some((set, rest)) => match tagged(set, SEQUENCE) {
            Some((attribute, _)) => match common_name_of(attribute) {
                Some(value) => Some(value),
                None => common_name(rest),
            },
            None => common_name(rest),
        },
        None => None,
    }
}

/// The ASCII text that `bytes` hold, if they hold one.
pub open spec fn ascii_text(bytes: Seq<u8>) -> Option<Seq<char>> {
    if forall|i: int| 0 <= i < bytes.len() ==> #[trigger] bytes[i] < 0x80 {
        Some(Seq::new(bytes.len(), |i: int| bytes[i] as char))
    } else {
        None
    }
}

/// The device that a certificate names: the common name of its subject, without white space around
/// it, where it is a text that is not blank.
pub open spec fn device_of(certificate: Seq<u8>) -> Option<Seq<char>> {
    match subject(certificate) {
        Some(attributes) => match common_name(attributes) {
            Some(value) => match ascii_text(value) {
                Some(name) => if text::has_text(name) {
                    Some(text::trimmed(name))
                } else {
                    None
                },
                None => None,
            },
            None => None,
        },
        None => None,
    }
}

/// The content of the first element, and what follows it.
fn read_element(bytes: &[u8]) -> (r: Option<(&[u8], &[u8])>)
    ensures
        match r {
            Some((content, rest)) => element(bytes@) == Some((content@, rest@)),
            None => element(bytes@) is None,
        },
{
    let (header, content): (usize, usize) = if bytes.len() >= 2 && bytes[1] < 0x80 {
        (2, bytes[1] as usize)
    } else if bytes.len() >= 3 && bytes[1] == 0x81 {
        (3, bytes[2] as usize)
    } else if bytes.len() >= 4 && bytes[1] == 0x82 {
        (4, 0x100 * bytes[2] as usize + bytes[3] as usize)
    } else {
        return None;
    };
    assert(sizes(bytes@) == Some((header as int, content as int)));
    let end = header + content;
    if end > bytes.len() {
        return None;
    }
    let rest = vstd::slice::slice_subrange(bytes, end, bytes.len());
    assert(rest@ =~= bytes@.skip(end as int));
    Some((vstd::slice::slice_subrange(bytes, header, end), rest))
}

/// The content of the first element, where it has the given tag, and what follows it.
fn read_tagged(bytes: &[u8], tag: u8) -> (r: Option<(&[u8], &[u8])>)
    ensures
        match r {
            Some((content, rest)) => tagged(bytes@, tag) == Some((content@, rest@)),
            None => tagged(bytes@, tag) is None,
        },
{
    if bytes.len() > 0 && bytes[0] == tag {
        read_element(bytes)
    } else {
        None
    }
}

/// What follows the first `n` elements.
fn skip_elements(bytes: &[u8], n: usize) -> (r: Option<&[u8]>)
    ensures
        match r {
            Some(rest) => after_elements(bytes@, n as nat) == Some(rest@),
            None => after_elements(bytes@, n as nat) is None,
        },
{
    let mut rest = bytes;
    let mut left: usize = n;
    while left > 0
        invariant
            after_elements(bytes@, n as nat) == after_elements(rest@, left as nat),
        decreases left,
    {
        match read_element(rest) {
            Some((_, tail)) => {
                rest = tail;
            },
            None => return None,
        }
        left = left - 1;
    }
    Some(rest)
}

/// The attributes of the subject of a certificate.
fn read_subject(certificate: &[u8]) -> (r: Option<&[u8]>)
    ensures
        match r {
            Some(attributes) => subject(certificate@) == Some(attributes@),
            None => subject(certificate@) is None,
        },
{
    let whole = match read_tagged(certificate, SEQUENCE) {
        Some((whole, _)) => whole,
        None => return None,
    };
    let fields = match read_tagged(whole, SEQUENCE) {
        Some((fields, _)) => fields,
        None => return None,
    };
    let skipped: usize = if fields.len() > 0 && fields[0] == VERSION {
        5
    } else {
        4
    };
    let rest = match skip_elements(fields, skipped) {
        Some(rest) => rest,
        None => return None,
    };
    match read_tagged(rest, SEQUENCE) {
        Some((attributes, _)) => Some(attributes),
        None => None,
    }
}

/// The value of an attribute, where it is a common name.
fn read_attribute(attribute: &[u8]) -> (r: Option<&[u8]>)
    ensures
        match r {
            Some(value) => common_name_of(attribute@) == Some(value@),
            None => common_name_of(attribute@) is None,
        },
{
    let (identifier, rest) = match read_tagged(attribute, OBJECT_IDENTIFIER) {
        Some(parts) => parts,
        None => return None,
    };
    let is_name = identifier.len() == 3 && identifier[0] == 0x55 && identifier[1] == 0x04
        && identifier[2] == 0x03;
    assert(is_name == names_common_name(identifier@)) by {
        if is_name {
            assert(identifier@ =~= seq![0x55u8, 0x04u8, 0x03u8]);
        }
    }
    if !is_name {
        return None;
    }
    match read_element(rest) {
        Some((value, _)) => Some(value),
        None => None,
    }
}

/// The first common name among the sets of attributes.
fn read_common_name(attributes: &[u8]) -> (r: Option<&[u8]>)
    ensures
        match r {
            Some(value) => common_name(attributes@) == Some(value@),
            None => common_name(attributes@) is None,
        },
{
    let mut rest = attributes;
    loop
        invariant
            common_name(attributes@) == common_name(rest@),
        decreases rest@.len(),
    {
        let (set, tail) = match read_tagged(rest, SET) {
            Some(parts) => parts,
            None => return None,
        };
        if let Some((attribute, _)) = read_tagged(set, SEQUENCE) {
            if let Some(value) = read_attribute(attribute) {
                return Some(value);
            }
        }
        rest = tail;
    }
}

/// The ASCII text that `bytes` hold, if they hold one.
fn read_ascii(bytes: &[u8]) -> (r: Option<String>)
    ensures
        text::chars(r) == ascii_text(bytes@),
{
    let mut out = String::new();
    let mut i: usize = 0;
    while i < bytes.len()
        invariant
            i <= bytes@.len(),
            forall|k: int| 0 <= k < i ==> #[trigger] bytes@[k] < 0x80,
            out@ == Seq::new(i as nat, |k: int| bytes@[k] as char),
        decreases bytes.len() - i,
    {
        if bytes[i] >= 0x80 {
            return None;
        }
        out.push(bytes[i] as char);
        i = i + 1;
        assert(out@ =~= Seq::new(i as nat, |k: int| bytes@[k] as char));
    }
    Some(out)
}

/// The device that a certificate names.
pub fn certified_device(certificate: &[u8]) -> (r: Option<String>)
    ensures
        text::chars(r) == device_of(certificate@),
{
    let attributes = match read_subject(certificate) {
        Some(attributes) => attributes,
        None => return None,
    };
    let value = match read_common_name(attributes) {
        Some(value) => value,
        None => return None,
    };
    let name = match read_ascii(value) {
        Some(name) => name,
        None => return None,
    };
    let name = text::trim(name.as_str());
    if name.is_empty() {
        None
    } else {
        Some(name.to_owned())
    }
}

// ---------------------------------------------------------------------------
// Reading what was written
// ---------------------------------------------------------------------------

/// An element with the given tag and content: the length of the content stands before it in one byte
/// where it is less than 128, and else in one or two bytes, the most significant first, after a byte
/// that tells how many.
#[verifier::opaque]
pub open spec fn written(tag: u8, content: Seq<u8>) -> Seq<u8> {
    let n = content.len() as int;
    if n < 128 {
        seq![tag, n as u8] + content
    } else if n < 256 {
        seq![tag, 129u8, n as u8] + content
    } else {
        seq![tag, 130u8, (n / 256) as u8, (n % 256) as u8] + content
    }
}

/// An element that is written reads back, and so does what follows it.
pub proof fn law_elements_read_back(tag: u8, other: u8, content: Seq<u8>, rest: Seq<u8>)
    requires
        content.len() < 65536,
        other != tag,
    ensures
        element(written(tag, content) + rest) == Some((content, rest)),
        tagged(written(tag, content) + rest, tag) == Some((content, rest)),
        tagged(written(tag, content) + rest, other) is None,
{
    reveal(written);
    let n = content.len() as int;
    let bytes = written(tag, content) + rest;
    let header: int = if n < 128 { 2 } else if n < 256 { 3 } else { 4 };
    assert(bytes[0] == tag);
    if n < 128 {
        assert(bytes[1] == n as u8);
    } else if n < 256 {
        assert(bytes[1] == 129u8 && bytes[2] == n as u8);
    } else {
        assert(bytes[1] == 130u8 && bytes[2] == (n / 256) as u8 && bytes[3] == (n % 256) as u8);
        assert(256 * (n / 256) + n % 256 == n);
    }
    assert(sizes(bytes) == Some((header, n)));
    assert(bytes.subrange(header, header + n) =~= content);
    assert(bytes.skip(header + n) =~= rest);
}

/// An attribute of a subject: a set of one list, of an identifier and of a value.
pub open spec fn attribute(identifier: Seq<u8>, kind: u8, value: Seq<u8>) -> Seq<u8> {
    written(0x31, written(0x30, written(0x06, identifier) + written(kind, value)))
}

/// A certificate names the device that the common name of its subject is, whatever else it holds
/// before the subject and behind it, whoever issued it, and whether or not it tells its version. Other
/// attributes of the subject may precede the common name.
pub proof fn law_certificate_names_its_subject(
    version: Option<Seq<u8>>,
    serial: Seq<u8>,
    algorithm: Seq<u8>,
    issuer: Seq<u8>,
    validity: Seq<u8>,
    identifier: Seq<u8>,
    other: Seq<u8>,
    name: Seq<u8>,
    kind: u8,
    rest: Seq<u8>,
    signature: Seq<u8>,
    certificate: &[u8],
    r: Option<String>,
)
    requires
        call_ensures(certified_device, (certificate,), r),
        version matches Some(content) ==> content.len() < 1000,
        serial.len() < 1000,
        algorithm.len() < 1000,
        issuer.len() < 1000,
        validity.len() < 1000,
        identifier.len() < 100,
        identifier != seq![85u8, 4u8, 3u8],
        other.len() < 1000,
        0 < name.len() < 1000,
        rest.len() < 10000,
        forall|i: int| 0 <= i < name.len() ==> #[trigger] name[i] < 128,
        !text::white_space(name[0] as char),
        !text::white_space(name.last() as char),
        ({
            let subject = attribute(identifier, kind, other) + attribute(
                seq![85u8, 4u8, 3u8],
                kind,
                name,
            );
            let fields = written(0x02, serial) + (written(0x30, algorithm) + (written(0x30, issuer)
                + (written(0x30, validity) + (written(0x30, subject) + rest))));
            let all = if version is Some {
                written(0xa0, version->0) + fields
            } else {
                fields
            };
            certificate@ == written(0x30, written(0x30, all) + signature)
        }),
        signature.len() < 10000,
    ensures
        r is Some,
        r->0@ == Seq::new(name.len(), |i: int| name[i] as char),
{
    let oid = seq![85u8, 4u8, 3u8];
    let none = Seq::<u8>::empty();
    let second = attribute(oid, kind, name);
    let subject_of = attribute(identifier, kind, other) + second;
    lemma_attribute(identifier, kind, other, second);
    lemma_attribute(oid, kind, name, none);
    assert(second + none =~= second);
    assert(common_name(subject_of) == Some(name));
    lemma_attribute_size(identifier, kind, other);
    lemma_attribute_size(oid, kind, name);
    lemma_subject(
        version,
        serial,
        algorithm,
        issuer,
        validity,
        subject_of,
        rest,
        signature,
        certificate@,
    );
    let read = Seq::new(name.len(), |i: int| name[i] as char);
    assert(ascii_text(name) == Some(read));
    let blank = Seq::<char>::empty();
    text::law_trim_takes_white_space_around(blank, read, blank);
    assert(blank + read + blank =~= read);
}

/// The subject of a certificate is found behind what precedes it.
proof fn lemma_subject(
    version: Option<Seq<u8>>,
    serial: Seq<u8>,
    algorithm: Seq<u8>,
    issuer: Seq<u8>,
    validity: Seq<u8>,
    subject_of: Seq<u8>,
    rest: Seq<u8>,
    signature: Seq<u8>,
    certificate: Seq<u8>,
)
    requires
        version matches Some(content) ==> content.len() < 1000,
        serial.len() < 1000,
        algorithm.len() < 1000,
        issuer.len() < 1000,
        validity.len() < 1000,
        subject_of.len() < 10000,
        rest.len() < 10000,
        signature.len() < 10000,
        ({
            let fields = written(0x02, serial) + (written(0x30, algorithm) + (written(0x30, issuer)
                + (written(0x30, validity) + (written(0x30, subject_of) + rest))));
            let all = if version is Some {
                written(0xa0, version->0) + fields
            } else {
                fields
            };
            certificate == written(0x30, written(0x30, all) + signature)
        }),
    ensures
        subject(certificate) == Some(subject_of),
{
    let none = Seq::<u8>::empty();
    let tail = written(0x30, subject_of) + rest;
    let from_validity = written(0x30, validity) + tail;
    let from_issuer = written(0x30, issuer) + from_validity;
    let from_algorithm = written(0x30, algorithm) + from_issuer;
    let fields = written(0x02, serial) + from_algorithm;
    let all = if version is Some { written(0xa0, version->0) + fields } else { fields };
    let whole = written(0x30, all) + signature;
    lemma_written_size(0x30, subject_of);
    lemma_next(0x30, validity, tail, 0);
    lemma_next(0x30, issuer, from_validity, 1);
    lemma_next(0x30, algorithm, from_issuer, 2);
    lemma_next(0x02, serial, from_algorithm, 3);
    if let Some(content) = version {
        lemma_next(0xa0, content, fields, 4);
    }
    lemma_written_size(0x30, all);
    assert(written(0x30, whole) + none =~= written(0x30, whole));
    lemma_list(whole, none);
    lemma_list(all, signature);
    lemma_list(subject_of, rest);
    assert(after_elements(tail, 0) == Some(tail));
}

/// Behind an element that is written comes what follows it.
proof fn lemma_next(tag: u8, content: Seq<u8>, rest: Seq<u8>, n: nat)
    requires
        content.len() < 65536,
    ensures
        after_elements(written(tag, content) + rest, n + 1) == after_elements(rest, n),
        (written(tag, content) + rest)[0] == tag,
        (written(tag, content) + rest).len() <= content.len() + rest.len() + 4,
        (written(tag, content) + rest).len() > 0,
{
    let different: u8 = if tag == 0 { 1 } else { 0 };
    law_elements_read_back(tag, different, content, rest);
    lemma_written_size(tag, content);
}

/// A list that is written is read as one.
proof fn lemma_list(content: Seq<u8>, rest: Seq<u8>)
    requires
        content.len() < 65536,
    ensures
        tagged(written(0x30, content) + rest, SEQUENCE) == Some((content, rest)),
{
    law_elements_read_back(0x30, 0, content, rest);
}

proof fn lemma_written_size(tag: u8, content: Seq<u8>)
    ensures
        content.len() < written(tag, content).len() <= content.len() + 4,
        written(tag, content)[0] == tag,
{
    reveal(written);
}

proof fn lemma_attribute_size(identifier: Seq<u8>, kind: u8, value: Seq<u8>)
    ensures
        attribute(identifier, kind, value).len() <= identifier.len() + value.len() + 16,
{
    let list = written(0x06, identifier) + written(kind, value);
    lemma_written_size(0x06, identifier);
    lemma_written_size(kind, value);
    lemma_written_size(0x30, list);
    lemma_written_size(0x31, written(0x30, list));
}

/// Reading an attribute gives its value where it is a common name, and else leads on to what follows.
proof fn lemma_attribute(identifier: Seq<u8>, kind: u8, value: Seq<u8>, rest: Seq<u8>)
    requires
        identifier.len() < 100,
        value.len() < 1000,
    ensures
        common_name(attribute(identifier, kind, value) + rest) == (if identifier == seq![
            85u8,
            4u8,
            3u8,
        ] {
            Some(value)
        } else {
            common_name(rest)
        }),
{
    let none = Seq::<u8>::empty();
    let list = written(0x06, identifier) + written(kind, value);
    lemma_written_size(0x06, identifier);
    lemma_written_size(kind, value);
    lemma_written_size(0x30, list);
    law_elements_read_back(0x31, 0, written(0x30, list), rest);
    law_elements_read_back(0x30, 0, list, none);
    assert(written(0x30, list) + none =~= written(0x30, list));
    law_elements_read_back(0x06, 0, identifier, written(kind, value));
    let different: u8 = if kind == 0 { 1 } else { 0 };
    law_elements_read_back(kind, different, value, none);
    assert(written(kind, value) + none =~= written(kind, value));
}

/// A certificate whose first element is no list, or that is cut short, names no device.
pub proof fn law_other_bytes_name_no_device(certificate: &[u8], r: Option<String>)
    requires
        call_ensures(certified_device, (certificate,), r),
    ensures
        certificate@.len() < 2 ==> r is None,
        certificate@.len() >= 2 && certificate@[0] != 0x30 ==> r is None,
        certificate@.len() >= 2 && certificate@[1] < 128 && certificate@.len() < 2 + certificate@[1]
            ==> r is None,
        r matches Some(name) ==> name@.len() > 0,
{
}

} // verus!

//! Keys that the platform's key storage protects. The private key never leaves it: what is
//! handled here is the key's name, its public part and the signatures that it gave.

use crate::bytes::{copy_range, push_all};
use crate::digest::sha256;
use crate::text::{contains_nul, push_decimal, push_hexadecimal};
use p256::ecdsa::Signature;
use vstd::prelude::*;
use vstd::string::StringExecFns;

verus! {

pub const SHA256_BYTES: usize = 32;

/// The status by which the key storage says that a signature does not fit.
pub const BAD_SIGNATURE_STATUS: i32 = -2_146_893_818;

/// The mark of a public P-256 signing key in the key storage's own format.
pub const ECDSA_PUBLIC_P256_MAGIC: u32 = 0x3153_4345;

pub const P256_COORDINATE_BYTES: u32 = 32;

pub const P256_BLOB_BYTES: usize = 72;

/// The size in bytes of the properties that are read.
pub const PROPERTY_BYTES: u32 = 4;

/// What went wrong with a protected key.
#[derive(Debug, Clone, Copy, PartialEq, Eq)]
pub enum CngKeyError {
    InvalidKeyName,
    Windows { operation: &'static str, status: i32 },
    UnexpectedPropertySize { property: &'static str, expected: u32, actual: u32 },
    InvalidPublicKeyBlob,
    InvalidSignatureEncoding,
}

/// The number that a status stands for when its sign is taken as a further bit.
pub open spec fn unsigned_status(status: i32) -> nat {
    if status < 0 {
        (status + 0x1_0000_0000) as nat
    } else {
        status as nat
    }
}

impl CngKeyError {
    /// What the error says.
    pub open spec fn spec_message(self) -> Seq<char> {
        match self {
            CngKeyError::InvalidKeyName => "CNG key name must be non-empty and contain no NUL"@,
            CngKeyError::Windows { operation, status } => operation@
                + " failed with CNG status 0x"@ + crate::text::hexadecimal(
                unsigned_status(status),
                8,
            ),
            CngKeyError::UnexpectedPropertySize { property, expected, actual } => property@
                + " returned "@ + crate::text::decimal(actual as nat) + " bytes; expected "@
                + crate::text::decimal(expected as nat),
            CngKeyError::InvalidPublicKeyBlob => "unexpected CNG ECDSA P-256 public key blob"@,
            CngKeyError::InvalidSignatureEncoding =>
                "unexpected CNG ECDSA P-256 signature encoding"@,
        }
    }

    /// The text for people.
    #[must_use]
    pub fn message(&self) -> (text: String)
        ensures
            text@ == self.spec_message(),
    {
        match self {
            CngKeyError::InvalidKeyName =>
                "CNG key name must be non-empty and contain no NUL".to_owned(),
            CngKeyError::Windows { operation, status } => {
                let number: u64 = if *status < 0 {
                    (*status as i64 + 0x1_0000_0000) as u64
                } else {
                    *status as u64
                };
                let mut text: String = (*operation).to_owned();
                text.append(" failed with CNG status 0x");
                push_hexadecimal(&mut text, number, 8);
                text
            },
            CngKeyError::UnexpectedPropertySize { property, expected, actual } => {
                let mut text: String = (*property).to_owned();
                text.append(" returned ");
                push_decimal(&mut text, *actual as u64);
                text.append(" bytes; expected ");
                push_decimal(&mut text, *expected as u64);
                text
            },
            CngKeyError::InvalidPublicKeyBlob =>
                "unexpected CNG ECDSA P-256 public key blob".to_owned(),
            CngKeyError::InvalidSignatureEncoding =>
                "unexpected CNG ECDSA P-256 signature encoding".to_owned(),
        }
    }
}

/// A name that the key storage takes: not empty, and without a NUL, which would end it.
pub open spec fn is_key_name(name: Seq<char>) -> bool {
    name.len() > 0 && !name.contains('\0')
}

/// Hands a name back where the key storage can take it.
pub fn validate_key_name(name: String) -> (result: Result<String, CngKeyError>)
    ensures
        result == if is_key_name(name@) {
            Ok::<String, CngKeyError>(name)
        } else {
            Err(CngKeyError::InvalidKeyName)
        },
{
    if name.as_str().unicode_len() == 0 || contains_nul(name.as_str()) {
        return Err(CngKeyError::InvalidKeyName);
    }
    Ok(name)
}

/// Reads a status of the key storage.
pub fn check_status(operation: &'static str, status: i32) -> (result: Result<(), CngKeyError>)
    ensures
        result == if status == 0 {
            Ok::<(), CngKeyError>(())
        } else {
            Err(CngKeyError::Windows { operation, status })
        },
{
    if status == 0 {
        Ok(())
    } else {
        Err(CngKeyError::Windows { operation, status })
    }
}

/// Reads the answer to a question for a property of four bytes.
pub fn property_value(
    property: &'static str,
    status: i32,
    value: u32,
    written: u32,
) -> (result: Result<u32, CngKeyError>)
    ensures
        result == if status != 0 {
            Err::<u32, CngKeyError>(
                CngKeyError::Windows { operation: "NCryptGetProperty", status },
            )
        } else if written != PROPERTY_BYTES {
            Err(
                CngKeyError::UnexpectedPropertySize {
                    property,
                    expected: PROPERTY_BYTES,
                    actual: written,
                },
            )
        } else {
            Ok(value)
        },
{
    match check_status("NCryptGetProperty", status) {
        Ok(()) => {},
        Err(error) => return Err(error),
    }
    if written != PROPERTY_BYTES {
        return Err(
            CngKeyError::UnexpectedPropertySize {
                property,
                expected: PROPERTY_BYTES,
                actual: written,
            },
        );
    }
    Ok(value)
}

/// Reads the answer to a signature's verification. A signature that does not fit is an answer,
/// not a failure.
pub fn verification_outcome(status: i32) -> (result: Result<bool, CngKeyError>)
    ensures
        result == if status == 0 {
            Ok::<bool, CngKeyError>(true)
        } else if status == BAD_SIGNATURE_STATUS {
            Ok(false)
        } else {
            Err(CngKeyError::Windows { operation: "NCryptVerifySignature", status })
        },
{
    if status == 0 {
        Ok(true)
    } else if status == BAD_SIGNATURE_STATUS {
        Ok(false)
    } else {
        Err(CngKeyError::Windows { operation: "NCryptVerifySignature", status })
    }
}

/// The length of a signature as the key storage takes it.
pub fn signature_length(length: usize) -> (result: Result<u32, CngKeyError>)
    ensures
        result == if length <= u32::MAX {
            Ok::<u32, CngKeyError>(length as u32)
        } else {
            Err(CngKeyError::Windows { operation: "signature length conversion", status: (-1) as i32 })
        },
{
    if length <= u32::MAX as usize {
        Ok(length as u32)
    } else {
        Err(CngKeyError::Windows { operation: "signature length conversion", status: -1 })
    }
}

/// The number that four bytes stand for, with the least significant byte first.
pub open spec fn little_endian(bytes: Seq<u8>, start: int) -> int {
    bytes[start] + 0x100 * bytes[start + 1] + 0x1_0000 * bytes[start + 2] + 0x100_0000
        * bytes[start + 3]
}

/// A public P-256 key in the key storage's own format: a mark, the size of a coordinate and the
/// two coordinates.
pub open spec fn is_p256_blob(blob: Seq<u8>) -> bool {
    &&& blob.len() == P256_BLOB_BYTES
    &&& little_endian(blob, 0) == ECDSA_PUBLIC_P256_MAGIC
    &&& little_endian(blob, 4) == P256_COORDINATE_BYTES
}

/// The same key as an uncompressed point.
pub open spec fn sec1_point(blob: Seq<u8>) -> Seq<u8> {
    seq![0x04u8] + blob.skip(8)
}

fn read_little_endian(bytes: &[u8], start: usize) -> (value: u32)
    requires
        start + 4 <= bytes@.len(),
    ensures
        value == little_endian(bytes@, start as int),
{
    bytes[start] as u32 + 0x100 * (bytes[start + 1] as u32) + 0x1_0000 * (bytes[start + 2] as u32)
        + 0x100_0000 * (bytes[start + 3] as u32)
}

/// Reads a public key in the key storage's own format.
pub fn sec1_public_key_from_cng_blob(blob: &[u8]) -> (result: Result<Vec<u8>, CngKeyError>)
    ensures
        match result {
            Ok(point) => is_p256_blob(blob@) && point@ == sec1_point(blob@),
            Err(error) => !is_p256_blob(blob@) && error == CngKeyError::InvalidPublicKeyBlob,
        },
{
    let length: usize = blob.len();
    if length != P256_BLOB_BYTES {
        return Err(CngKeyError::InvalidPublicKeyBlob);
    }
    let magic: u32 = read_little_endian(blob, 0);
    let key_bytes: u32 = read_little_endian(blob, 4);
    if magic != ECDSA_PUBLIC_P256_MAGIC || key_bytes != P256_COORDINATE_BYTES {
        return Err(CngKeyError::InvalidPublicKeyBlob);
    }
    let mut sec1: Vec<u8> = Vec::with_capacity(65);
    sec1.push(0x04);
    let coordinates = copy_range(blob, 8, length);
    push_all(&mut sec1, coordinates.as_slice());
    proof {
        assert(sec1@ =~= sec1_point(blob@));
    }
    Ok(sec1)
}

/// The order of the P-256 group.
pub open spec fn p256_order() -> int {
    0xffffffff00000000ffffffffffffffffbce6faada7179e84f3b9cac2fc632551int
}

/// Two numbers of 32 bytes each, neither of them zero and both below the group's order.
pub open spec fn is_p256_signature(raw: Seq<u8>) -> bool {
    &&& raw.len() == 64
    &&& 0 < crate::bytes::be_value(raw.take(32)) < p256_order()
    &&& 0 < crate::bytes::be_value(raw.skip(32)) < p256_order()
}

/// The bytes of a number without the zeros in front.
pub open spec fn without_leading_zeros(bytes: Seq<u8>) -> Seq<u8>
    decreases bytes.len(),
{
    if bytes.len() > 1 && bytes[0] == 0 {
        without_leading_zeros(bytes.skip(1))
    } else {
        bytes
    }
}

/// A number that is not negative as a DER integer: with a zero in front where its first bit
/// would be read as a sign.
pub open spec fn der_integer(bytes: Seq<u8>) -> Seq<u8> {
    let digits = without_leading_zeros(bytes);
    let value = if digits[0] >= 0x80 {
        seq![0u8] + digits
    } else {
        digits
    };
    seq![0x02u8, value.len() as u8] + value
}

/// A signature as a DER sequence of its two numbers.
pub open spec fn der_signature(raw: Seq<u8>) -> Seq<u8> {
    let body = der_integer(raw.take(32)) + der_integer(raw.skip(32));
    seq![0x30u8, body.len() as u8] + body
}

/// Calls `Signature::from_slice` of p256 and, on what it gives, `to_der`: the two numbers of 32
/// bytes each become a DER sequence of two integers. Nothing comes of a slice of another length,
/// or where a number is zero or not below the group's order.
#[verifier::external_body]
fn p256_signature_der(raw: &[u8]) -> (der: Option<Vec<u8>>)
    ensures
        match der {
            Some(der) => is_p256_signature(raw@) && der@ == der_signature(raw@),
            None => !is_p256_signature(raw@),
        },
{
    match Signature::from_slice(raw) {
        Ok(signature) => Some(signature.to_der().as_bytes().to_vec()),
        Err(_) => None,
    }
}

/// A signature as certificates and handshakes carry it.
pub fn encode_signature(raw: &[u8]) -> (result: Result<Vec<u8>, CngKeyError>)
    ensures
        match result {
            Ok(der) => is_p256_signature(raw@) && der@ == der_signature(raw@),
            Err(error) => !is_p256_signature(raw@) && error
                == CngKeyError::InvalidSignatureEncoding,
        },
{
    match p256_signature_der(raw) {
        Some(der) => Ok(der),
        None => Err(CngKeyError::InvalidSignatureEncoding),
    }
}

/// The digest of a message, which is what the key storage signs.
#[must_use]
pub fn message_digest(message: &[u8]) -> (digest: [u8; SHA256_BYTES])
    ensures
        digest@ == crate::digest::sha256_digest(message@),
{
    sha256(message)
}

/// A protected key, known by its name.
#[derive(Debug, Clone, PartialEq, Eq)]
pub struct CngMachineKey {
    name: String,
}

impl View for CngMachineKey {
    type V = Seq<char>;

    closed spec fn view(&self) -> Seq<char> {
        self.name@
    }
}

impl CngMachineKey {
    /// The key's name is one that the key storage takes.
    pub open spec fn wf(self) -> bool {
        is_key_name(self@)
    }

    /// The key of a name. Whether there is one, the key storage says.
    pub fn named(name: String) -> (result: Result<Self, CngKeyError>)
        ensures
            match result {
                Ok(key) => key.wf() && key@ == name@,
                Err(error) => !is_key_name(name@) && error == CngKeyError::InvalidKeyName,
            },
    {
        match validate_key_name(name) {
            Ok(name) => Ok(CngMachineKey { name }),
            Err(error) => Err(error),
        }
    }

    #[must_use]
    pub fn name(&self) -> (name: &str)
        ensures
            name@ == self@,
    {
        self.name.as_str()
    }
}

/// A protected key with its public part, as a certificate's signer needs it.
#[derive(Debug, Clone, PartialEq, Eq)]
pub struct CngRcgenSigningKey {
    key: CngMachineKey,
    public_key_sec1: Vec<u8>,
}

impl CngRcgenSigningKey {
    /// The protected key.
    pub closed spec fn spec_machine_key(self) -> CngMachineKey {
        self.key
    }

    /// The public part, as an uncompressed point.
    pub closed spec fn spec_public_key(self) -> Seq<u8> {
        self.public_key_sec1@
    }

    /// Takes a key, and the public part of it that the key storage gave out.
    pub fn new(key: CngMachineKey, public_key_blob: &[u8]) -> (result: Result<Self, CngKeyError>)
        ensures
            match result {
                Ok(signing) => {
                    &&& is_p256_blob(public_key_blob@)
                    &&& signing.spec_machine_key() == key
                    &&& signing.spec_public_key() == sec1_point(public_key_blob@)
                },
                Err(error) => !is_p256_blob(public_key_blob@) && error
                    == CngKeyError::InvalidPublicKeyBlob,
            },
    {
        match sec1_public_key_from_cng_blob(public_key_blob) {
            Ok(public_key_sec1) => Ok(CngRcgenSigningKey { key, public_key_sec1 }),
            Err(error) => Err(error),
        }
    }

    #[must_use]
    pub fn machine_key(&self) -> (key: &CngMachineKey)
        ensures
            *key == self.spec_machine_key(),
    {
        &self.key
    }

    /// The public part, as an uncompressed point.
    #[must_use]
    pub fn der_bytes(&self) -> (bytes: &[u8])
        ensures
            bytes@ == self.spec_public_key(),
    {
        self.public_key_sec1.as_slice()
    }
}

/// A public key is read from the key storage's format without a loss: the point holds the two
/// coordinates, so that blobs of different keys give different points.
pub proof fn law_public_keys_stay_distinct(a: Seq<u8>, b: Seq<u8>)
    requires
        is_p256_blob(a),
        is_p256_blob(b),
        sec1_point(a) == sec1_point(b),
    ensures
        a == b,
{
    assert(a.skip(8) =~= sec1_point(a).skip(1));
    assert(b.skip(8) =~= sec1_point(b).skip(1));
    assert forall|i: int| 0 <= i < a.len() implies a[i] == b[i] by {
        if i >= 8 {
            assert(a.skip(8)[i - 8] == b.skip(8)[i - 8]);
        }
    }
    assert(a =~= b);
}

/// A public key is read from these bytes: the letters ECS1, the size of a coordinate with its least
/// significant byte first, and the two coordinates. The point is a four and just these.
pub proof fn law_public_key_layout(blob: Seq<u8>)
    ensures
        is_p256_blob(blob) <==> {
            &&& blob.len() == 72
            &&& blob[0] == 0x45 && blob[1] == 0x43 && blob[2] == 0x53 && blob[3] == 0x31
            &&& blob[4] == 32 && blob[5] == 0 && blob[6] == 0 && blob[7] == 0
        },
        blob.len() == 72 ==> sec1_point(blob).len() == 65 && sec1_point(blob)[0] == 4
            && sec1_point(blob).subrange(1, 65) == blob.subrange(8, 72),
{
    if blob.len() == 72 {
        assert(sec1_point(blob).subrange(1, 65) =~= blob.subrange(8, 72));
    }
}

/// A key's name has characters, and none of them is the one that ends it.
pub proof fn law_key_names(name: Seq<char>, i: int)
    ensures
        name.len() == 0 ==> !is_key_name(name),
        0 <= i < name.len() && name[i] == '\0' ==> !is_key_name(name),
        name.len() > 0 && (forall|k: int| 0 <= k < name.len() ==> #[trigger] name[k] != '\0')
            ==> is_key_name(name),
{
}

/// Leading zeros of a number go, all of them but the last digit, and what stays means the same.
pub proof fn law_leading_zeros_go(bytes: Seq<u8>)
    requires
        bytes.len() > 0,
    ensures
        ({
            let digits = without_leading_zeros(bytes);
            &&& digits.len() >= 1
            &&& digits.len() > 1 ==> digits[0] != 0
            &&& crate::bytes::be_value(digits) == crate::bytes::be_value(bytes)
        }),
    decreases bytes.len(),
{
    if bytes.len() > 1 && bytes[0] == 0 {
        law_leading_zeros_go(bytes.skip(1));
        lemma_zero_first(bytes);
    }
}

proof fn lemma_zero_first(bytes: Seq<u8>)
    requires
        bytes.len() > 0,
        bytes[0] == 0,
    ensures
        crate::bytes::be_value(bytes.skip(1)) == crate::bytes::be_value(bytes),
    decreases bytes.len(),
{
    if bytes.len() > 1 {
        lemma_zero_first(bytes.drop_last());
        assert(bytes.skip(1).drop_last() =~= bytes.drop_last().skip(1));
    } else {
        reveal_with_fuel(crate::bytes::be_value, 2);
    }
}

/// A status is written as the 32 bits that it consists of.
pub proof fn law_status_bits(status: i32)
    ensures
        status >= 0 ==> unsigned_status(status) == status,
        status < 0 ==> unsigned_status(status) == 0x1_0000_0000 + status,
{
}

} // verus!

//! What the extensions for cryptography, tokens and WebAssembly decide
//! before a key is made or an algorithm runs.

use vstd::prelude::*;
use vstd::string::*;
use crate::error::{ScriptError, ScriptErrorKind};
use crate::kv::value::{ScriptValue, ScriptValueView};
use crate::runtime::ExtensionInfo;
use crate::text::str_eq;

verus! {

/// The extension for hashes, password hashes and RSA keys.
pub struct CryptoExtension;

/// The extension for signed tokens.
pub struct JwtExtension;

/// The extension that runs WebAssembly.
pub struct WasmExtension;

impl CryptoExtension {
    /// What the extension says of itself.
    pub fn extension_info(&self) -> (info: ExtensionInfo<'static>)
        ensures
            info.name@ == "crypto"@,
            info.description@ == "Crypto extension containing various cryptograpic algorithms"@,
            info.default,
    {
        ExtensionInfo {
            name: "crypto",
            description: "Crypto extension containing various cryptograpic algorithms",
            default: true,
        }
    }
}

impl JwtExtension {
    /// What the extension says of itself.
    pub fn extension_info(&self) -> (info: ExtensionInfo<'static>)
        ensures
            info.name@ == "jwt"@,
            info.description@ == "JWT extension for signing/verifying JWTs"@,
            info.default,
    {
        ExtensionInfo {
            name: "jwt",
            description: "JWT extension for signing/verifying JWTs",
            default: true,
        }
    }
}

impl WasmExtension {
    /// What the extension says of itself.
    pub fn extension_info(&self) -> (info: ExtensionInfo<'static>)
        ensures
            info.name@ == "wasm"@,
            info.description@ == "Webassembly runtime"@,
            info.default,
    {
        ExtensionInfo { name: "wasm", description: "Webassembly runtime", default: true }
    }
}

/// The longest RSA key that a script may ask for, in bits.
pub const MAX_RSA_BITS: usize = 4096;

/// Checks the size of an RSA key that a script asks for.
pub fn check_key_bits(bits: usize) -> (result: Result<(), ScriptError>)
    ensures
        result is Ok <==> bits <= MAX_RSA_BITS,
        result matches Err(error) ==> error.is(
            ScriptErrorKind::Runtime,
            "Maximum RSA key size is 4096 bits"@,
        ),
{
    if bits > MAX_RSA_BITS {
        Err(ScriptError::runtime("Maximum RSA key size is 4096 bits"))
    } else {
        Ok(())
    }
}

/// The form in which a key is written as PEM.
#[derive(Clone, Copy, Debug, PartialEq, Eq, Structural)]
pub enum PemKind {
    Pkcs8,
    Pkcs1,
}

/// The form that `name` asks for: PKCS8 where none is named.
pub open spec fn spec_pem_kind(name: Option<Seq<char>>) -> Option<PemKind> {
    match name {
        None => Some(PemKind::Pkcs8),
        Some(text) => if text == "PKCS8"@ {
            Some(PemKind::Pkcs8)
        } else if text == "PKCS1"@ {
            Some(PemKind::Pkcs1)
        } else {
            None
        },
    }
}

/// The view of an optional string slice.
pub open spec fn optional_name(name: Option<&str>) -> Option<Seq<char>> {
    match name {
        Some(text) => Some(text@),
        None => None,
    }
}

impl PemKind {
    /// Reads the form that a script names.
    pub fn parse(name: Option<&str>) -> (result: Result<PemKind, ScriptError>)
        ensures
            match result {
                Ok(kind) => spec_pem_kind(optional_name(name)) == Some(kind),
                Err(error) => spec_pem_kind(optional_name(name)) is None && error.is(
                    ScriptErrorKind::Runtime,
                    "Unsupported PEM type, supported types: [pkcs8, pkcs1]"@,
                ),
            },
    {
        match name {
            None => Ok(PemKind::Pkcs8),
            Some(text) => {
                if str_eq(text, "PKCS8") {
                    Ok(PemKind::Pkcs8)
                } else if str_eq(text, "PKCS1") {
                    Ok(PemKind::Pkcs1)
                } else {
                    Err(
                        ScriptError::runtime(
                            "Unsupported PEM type, supported types: [pkcs8, pkcs1]",
                        ),
                    )
                }
            },
        }
    }
}

/// The variants of Argon2.
#[derive(Clone, Copy, Debug, PartialEq, Eq, Structural)]
pub enum Argon2Kind {
    Argon2i,
    Argon2d,
    Argon2id,
}

/// The variant that `name` names.
pub open spec fn spec_argon2_kind(name: Seq<char>) -> Option<Argon2Kind> {
    if name == "Argon2i"@ {
        Some(Argon2Kind::Argon2i)
    } else if name == "Argon2d"@ {
        Some(Argon2Kind::Argon2d)
    } else if name == "Argon2id"@ {
        Some(Argon2Kind::Argon2id)
    } else {
        None
    }
}

/// What is said of a name that names no variant.
pub open spec fn bad_argon2_text(name: Seq<char>) -> Seq<char> {
    "Unsupported algorithm: "@ + name + ", valid types: [Argon2i, Argon2d, Argon2id]"@
}

impl Argon2Kind {
    /// Reads the variant that a script names.
    pub fn parse(name: &str) -> (result: Result<Argon2Kind, ScriptError>)
        ensures
            match result {
                Ok(kind) => spec_argon2_kind(name@) == Some(kind),
                Err(error) => spec_argon2_kind(name@) is None && error.is(
                    ScriptErrorKind::Runtime,
                    bad_argon2_text(name@),
                ),
            },
    {
        if str_eq(name, "Argon2i") {
            Ok(Argon2Kind::Argon2i)
        } else if str_eq(name, "Argon2d") {
            Ok(Argon2Kind::Argon2d)
        } else if str_eq(name, "Argon2id") {
            Ok(Argon2Kind::Argon2id)
        } else {
            let mut message = String::from_str("Unsupported algorithm: ");
            message.append(name);
            message.append(", valid types: [Argon2i, Argon2d, Argon2id]");
            Err(ScriptError::RuntimeError(message))
        }
    }
}

/// The hash functions that a script may call.
#[derive(Clone, Copy, Debug, PartialEq, Eq, Structural)]
pub enum HashKind {
    Sha224,
    Sha256,
    Sha384,
    Sha512,
    Sha512_224,
    Sha512_256,
}

/// The SHA-224 digest of the UTF-8 bytes of `input`, as lower-case hex.
pub uninterp spec fn sha224_hex(input: Seq<char>) -> Seq<char>;

/// The SHA-256 digest of the UTF-8 bytes of `input`, as lower-case hex.
pub uninterp spec fn sha256_hex(input: Seq<char>) -> Seq<char>;

/// The SHA-384 digest of the UTF-8 bytes of `input`, as lower-case hex.
pub uninterp spec fn sha384_hex(input: Seq<char>) -> Seq<char>;

/// The SHA-512 digest of the UTF-8 bytes of `input`, as lower-case hex.
pub uninterp spec fn sha512_hex(input: Seq<char>) -> Seq<char>;

/// The SHA-512/224 digest of the UTF-8 bytes of `input`, as lower-case
/// hex.
pub uninterp spec fn sha512_224_hex(input: Seq<char>) -> Seq<char>;

/// The SHA-512/256 digest of the UTF-8 bytes of `input`, as lower-case
/// hex.
pub uninterp spec fn sha512_256_hex(input: Seq<char>) -> Seq<char>;

/// Calls `digest` of `sha2::Sha224` and writes the result as lower-case
/// hex. The contract only names the text.
#[verifier::external_body]
fn sha224_digest(input: &str) -> (hex: String)
    ensures
        hex@ == sha224_hex(input@),
{
    format!("{:x}", <sha2::Sha224 as sha2::Digest>::digest(input))
}

/// Calls `digest` of `sha2::Sha256` and writes the result as lower-case
/// hex. The contract only names the text.
#[verifier::external_body]
fn sha256_digest(input: &str) -> (hex: String)
    ensures
        hex@ == sha256_hex(input@),
{
    format!("{:x}", <sha2::Sha256 as sha2::Digest>::digest(input))
}

/// Calls `digest` of `sha2::Sha384` and writes the result as lower-case
/// hex. The contract only names the text.
#[verifier::external_body]
fn sha384_digest(input: &str) -> (hex: String)
    ensures
        hex@ == sha384_hex(input@),
{
    format!("{:x}", <sha2::Sha384 as sha2::Digest>::digest(input))
}

/// Calls `digest` of `sha2::Sha512` and writes the result as lower-case
/// hex. The contract only names the text.
#[verifier::external_body]
fn sha512_digest(input: &str) -> (hex: String)
    ensures
        hex@ == sha512_hex(input@),
{
    format!("{:x}", <sha2::Sha512 as sha2::Digest>::digest(input))
}

/// Calls `digest` of `sha2::Sha512_224` and writes the result as
/// lower-case hex. The contract only names the text.
#[verifier::external_body]
fn sha512_224_digest(input: &str) -> (hex: String)
    ensures
        hex@ == sha512_224_hex(input@),
{
    format!("{:x}", <sha2::Sha512_224 as sha2::Digest>::digest(input))
}

/// Calls `digest` of `sha2::Sha512_256` and writes the result as
/// lower-case hex. The contract only names the text.
#[verifier::external_body]
fn sha512_256_digest(input: &str) -> (hex: String)
    ensures
        hex@ == sha512_256_hex(input@),
{
    format!("{:x}", <sha2::Sha512_256 as sha2::Digest>::digest(input))
}

/// The name under which a script calls a hash function.
pub open spec fn spec_hash_name(kind: HashKind) -> Seq<char> {
    match kind {
        HashKind::Sha224 => "sha224"@,
        HashKind::Sha256 => "sha256"@,
        HashKind::Sha384 => "sha384"@,
        HashKind::Sha512 => "sha512"@,
        HashKind::Sha512_224 => "sha512_224"@,
        HashKind::Sha512_256 => "sha512_256"@,
    }
}

/// The digest that a hash function gives for `input`.
pub open spec fn spec_digest(kind: HashKind, input: Seq<char>) -> Seq<char> {
    match kind {
        HashKind::Sha224 => sha224_hex(input),
        HashKind::Sha256 => sha256_hex(input),
        HashKind::Sha384 => sha384_hex(input),
        HashKind::Sha512 => sha512_hex(input),
        HashKind::Sha512_224 => sha512_224_hex(input),
        HashKind::Sha512_256 => sha512_256_hex(input),
    }
}

impl HashKind {
    /// The name under which a script calls this hash function.
    pub fn name(self) -> (name: &'static str)
        ensures
            name@ == spec_hash_name(self),
    {
        match self {
            HashKind::Sha224 => "sha224",
            HashKind::Sha256 => "sha256",
            HashKind::Sha384 => "sha384",
            HashKind::Sha512 => "sha512",
            HashKind::Sha512_224 => "sha512_224",
            HashKind::Sha512_256 => "sha512_256",
        }
    }

    /// The digest of `input`, as lower-case hex.
    pub fn digest(self, input: &str) -> (hex: String)
        ensures
            hex@ == spec_digest(self, input@),
    {
        match self {
            HashKind::Sha224 => sha224_digest(input),
            HashKind::Sha256 => sha256_digest(input),
            HashKind::Sha384 => sha384_digest(input),
            HashKind::Sha512 => sha512_digest(input),
            HashKind::Sha512_224 => sha512_224_digest(input),
            HashKind::Sha512_256 => sha512_256_digest(input),
        }
    }
}

/// An argument of a call into WebAssembly.
#[derive(Clone, Debug, PartialEq, Eq)]
pub enum WasmArgument {
    /// A 32-bit integer.
    I32(i32),
    /// A 64-bit float, as its decimal text.
    F64(String),
}

/// An argument of a call into WebAssembly as a value.
pub enum WasmArgumentView {
    I32(i32),
    F64(Seq<char>),
}

impl View for WasmArgument {
    type V = WasmArgumentView;

    open spec fn view(&self) -> WasmArgumentView {
        match self {
            WasmArgument::I32(v) => WasmArgumentView::I32(*v),
            WasmArgument::F64(t) => WasmArgumentView::F64(t@),
        }
    }
}

/// The argument that a value of a script is passed as: nil as zero, a
/// boolean as zero or one, an integer that fits in 32 bits as it is, a
/// number as a float. Nothing else can be passed.
pub open spec fn spec_wasm_argument(value: ScriptValueView) -> Option<WasmArgumentView> {
    match value {
        ScriptValueView::Nil => Some(WasmArgumentView::I32(0)),
        ScriptValueView::Boolean(b) => Some(
            WasmArgumentView::I32(
                if b {
                    1
                } else {
                    0
                },
            ),
        ),
        ScriptValueView::Integer(v) => if i32::MIN <= v <= i32::MAX {
            Some(WasmArgumentView::I32(v as i32))
        } else {
            None
        },
        ScriptValueView::Number(t) => Some(WasmArgumentView::F64(t)),
        _ => None,
    }
}

/// Turns a value of a script into an argument of a call into WebAssembly.
pub fn lua_to_wasm(value: &ScriptValue) -> (result: Result<WasmArgument, ScriptError>)
    ensures
        match result {
            Ok(argument) => spec_wasm_argument(value@) == Some(argument@),
            Err(error) => spec_wasm_argument(value@) is None && error.is(
                ScriptErrorKind::Runtime,
                "Argument cannot be converted to Webassembly value."@,
            ),
        },
{
    match value {
        ScriptValue::Nil => Ok(WasmArgument::I32(0)),
        ScriptValue::Boolean(b) => Ok(
            WasmArgument::I32(
                if *b {
                    1
                } else {
                    0
                },
            ),
        ),
        ScriptValue::Integer(v) => {
            if -2147483648 <= *v && *v <= 2147483647 {
                Ok(WasmArgument::I32(*v as i32))
            } else {
                Err(ScriptError::runtime("Argument cannot be converted to Webassembly value."))
            }
        },
        ScriptValue::Number(t) => Ok(WasmArgument::F64(t.clone())),
        _ => Err(ScriptError::runtime("Argument cannot be converted to Webassembly value.")),
    }
}

} // verus!

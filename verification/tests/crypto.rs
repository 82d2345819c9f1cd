use actias::crypto::{
    check_key_bits, lua_to_wasm, Argon2Kind, HashKind, PemKind, WasmArgument, MAX_RSA_BITS,
};
use actias::error::{ErrorKind, ScriptError, Status};
use actias::kv::value::ScriptValue;

#[test]
fn digests_of_known_input() {
    assert_eq!(
        HashKind::Sha256.digest("abc"),
        "ba7816bf8f01cfea414140de5dae2223b00361a396177a9cb410ff61f20015ad"
    );
    assert_eq!(
        HashKind::Sha224.digest("abc"),
        "23097d223405d8228642a477bda255b32aadbce4bda0b3f7e36c9da7"
    );
    assert_eq!(
        HashKind::Sha256.digest(""),
        "e3b0c44298fc1c149afbf4c8996fb92427ae41e4649b934ca495991b7852b855"
    );
    assert_eq!(
        HashKind::Sha512.digest("abc"),
        "ddaf35a193617abacc417349ae20413112e6fa4e89a97ea20a9eeee64b55d39a2192992a274fc1a836ba3c23a3feebbd454d4423643ce80e2a9ac94fa54ca49f"
    );
    assert_eq!(
        HashKind::Sha384.digest("abc"),
        "cb00753f45a35e8bb5a03d699ac65007272c32ab0eded1631a8b605a43ff5bed8086072ba1e7cc2358baeca134c825a7"
    );
    assert_eq!(
        HashKind::Sha512_224.digest("abc"),
        "4634270f707b6a54daae7530460842e20e37ed265ceee9a43e8924aa"
    );
    assert_eq!(
        HashKind::Sha512_256.digest("abc"),
        "53048e2681941ef99b2e29b76b4c7dabe4c2d0c634fc6d46e0e2f13107e7af23"
    );
}

#[test]
fn hash_functions_are_called_by_their_names() {
    let names: Vec<&str> = [
        HashKind::Sha224,
        HashKind::Sha256,
        HashKind::Sha384,
        HashKind::Sha512,
        HashKind::Sha512_224,
        HashKind::Sha512_256,
    ]
    .iter()
    .map(|kind| kind.name())
    .collect();
    assert_eq!(names, vec!["sha224", "sha256", "sha384", "sha512", "sha512_224", "sha512_256"]);
}

#[test]
fn keys_are_at_most_4096_bits_long() {
    assert_eq!(MAX_RSA_BITS, 4096);
    assert_eq!(check_key_bits(2048), Ok(()));
    assert_eq!(check_key_bits(4096), Ok(()));
    assert_eq!(check_key_bits(0), Ok(()));
    assert_eq!(
        check_key_bits(4097),
        Err(ScriptError::RuntimeError("Maximum RSA key size is 4096 bits".to_string()))
    );
}

#[test]
fn keys_are_written_as_pkcs8_unless_asked_otherwise() {
    assert_eq!(PemKind::parse(None), Ok(PemKind::Pkcs8));
    assert_eq!(PemKind::parse(Some("PKCS8")), Ok(PemKind::Pkcs8));
    assert_eq!(PemKind::parse(Some("PKCS1")), Ok(PemKind::Pkcs1));
    assert_eq!(
        PemKind::parse(Some("pkcs1")),
        Err(ScriptError::RuntimeError(
            "Unsupported PEM type, supported types: [pkcs8, pkcs1]".to_string()
        ))
    );
}

#[test]
fn argon2_has_three_variants() {
    assert_eq!(Argon2Kind::parse("Argon2i"), Ok(Argon2Kind::Argon2i));
    assert_eq!(Argon2Kind::parse("Argon2d"), Ok(Argon2Kind::Argon2d));
    assert_eq!(Argon2Kind::parse("Argon2id"), Ok(Argon2Kind::Argon2id));
    assert_eq!(
        Argon2Kind::parse("argon2"),
        Err(ScriptError::RuntimeError(
            "Unsupported algorithm: argon2, valid types: [Argon2i, Argon2d, Argon2id]"
                .to_string()
        ))
    );
}

#[test]
fn values_are_passed_into_webassembly_as_numbers() {
    assert_eq!(lua_to_wasm(&ScriptValue::Nil), Ok(WasmArgument::I32(0)));
    assert_eq!(lua_to_wasm(&ScriptValue::Boolean(true)), Ok(WasmArgument::I32(1)));
    assert_eq!(lua_to_wasm(&ScriptValue::Boolean(false)), Ok(WasmArgument::I32(0)));
    assert_eq!(lua_to_wasm(&ScriptValue::Integer(-7)), Ok(WasmArgument::I32(-7)));
    assert_eq!(
        lua_to_wasm(&ScriptValue::Integer(i32::MAX as i64)),
        Ok(WasmArgument::I32(i32::MAX))
    );
    assert_eq!(
        lua_to_wasm(&ScriptValue::Number("1.5".to_string())),
        Ok(WasmArgument::F64("1.5".to_string()))
    );
}

#[test]
fn other_values_cannot_be_passed_into_webassembly() {
    let refused = ScriptError::RuntimeError(
        "Argument cannot be converted to Webassembly value.".to_string(),
    );
    assert_eq!(lua_to_wasm(&ScriptValue::String("x".to_string())), Err(refused.clone()));
    assert_eq!(lua_to_wasm(&ScriptValue::Table("{}".to_string())), Err(refused.clone()));
    assert_eq!(lua_to_wasm(&ScriptValue::Other), Err(refused.clone()));
    assert_eq!(lua_to_wasm(&ScriptValue::Integer(i32::MAX as i64 + 1)), Err(refused));
}

#[test]
fn error_kinds_surface_as_codes() {
    assert_eq!(ErrorKind::NotFound.http_status(), 404);
    for kind in [
        ErrorKind::Authentication,
        ErrorKind::Permission,
        ErrorKind::AlreadyExists,
        ErrorKind::InvalidArgument,
        ErrorKind::Io,
        ErrorKind::Communication,
        ErrorKind::ScriptRuntime,
        ErrorKind::Internal,
    ] {
        assert_eq!(kind.http_status(), 500);
    }
    assert_eq!(ErrorKind::InvalidArgument.rpc_code(), 3);
    assert_eq!(ErrorKind::NotFound.rpc_code(), 5);
    assert_eq!(ErrorKind::AlreadyExists.rpc_code(), 6);
    assert_eq!(ErrorKind::Permission.rpc_code(), 7);
    assert_eq!(ErrorKind::Internal.rpc_code(), 13);
    assert_eq!(ErrorKind::Communication.rpc_code(), 14);
    assert_eq!(ErrorKind::Authentication.rpc_code(), 16);
    assert_eq!(ErrorKind::from_rpc_code(5), ErrorKind::NotFound);
    assert_eq!(ErrorKind::from_rpc_code(2), ErrorKind::Internal);
}

#[test]
fn a_script_error_ends_a_request_as_a_runtime_status() {
    let status = ScriptError::DeserializeError("bad".to_string()).into_status();
    assert_eq!(status, Status { kind: ErrorKind::ScriptRuntime, message: "bad".to_string() });
    assert_eq!(ScriptError::runtime("x").message(), "x");
    assert_eq!(Status::new(ErrorKind::Io, "disk").duplicate().message, "disk");
}

use essrpc::bincode_codec::{decode_error, encode_error};
use essrpc::frame::decode_header;
use essrpc::{
    serve_step, serve_until_step, BincodeTransport, DecodeFailure, JSONCodec, JSONTransport,
    JsonValue, MethodId, MethodTable, PartialMethodId, RPCError, RPCErrorKind, ServeStep,
    VecReader,
};

// A service with two methods, `bar(a: String, b: i32) -> Result<String, String>`
// (index 0) and `expect_error() -> Result<String, String>` (index 1), served
// over in-memory byte buffers.

const BAR: MethodId = MethodId { name: "bar", num: 0 };
const EXPECT_ERROR: MethodId = MethodId { name: "expect_error", num: 1 };

fn table() -> MethodTable {
    MethodTable::new(vec!["bar".to_string(), "expect_error".to_string()])
}

fn bar(a: String, b: i32) -> Result<String, String> {
    Ok(format!("{} is {}", a, b))
}

fn expect_error() -> Result<String, String> {
    Err("iamerror".to_string())
}

// ---- binary codec ----

fn bincode_call_bar(a: &str, b: i32) -> Vec<u8> {
    let t = BincodeTransport::new(());
    let mut st = t.tx_begin_call(&BAR).unwrap();
    t.tx_add_param("a", &bincode::serialize(&a.to_string()).unwrap(), &mut st);
    t.tx_add_param("b", &bincode::serialize(&b).unwrap(), &mut st);
    t.tx_finalize(st).unwrap()
}

fn bincode_call_expect_error() -> Vec<u8> {
    let t = BincodeTransport::new(());
    let st = t.tx_begin_call(&EXPECT_ERROR).unwrap();
    t.tx_finalize(st).unwrap()
}

fn bincode_param<T: serde::de::DeserializeOwned>(rd: &mut VecReader) -> Result<T, RPCError> {
    let mut rest = rd.remaining();
    let before = rest.len();
    let v = bincode::deserialize_from(&mut rest).map_err(|e| match *e {
        bincode::ErrorKind::Io(ref io) if io.kind() == std::io::ErrorKind::UnexpectedEof => {
            decode_error(DecodeFailure::Eof)
        }
        ref other => decode_error(DecodeFailure::Invalid(other.to_string())),
    })?;
    let used = before - rest.len();
    rd.advance(used);
    Ok(v)
}

/// Serves the call at the start of `input`; returns the response's bytes
/// and the number of input bytes the call took.
fn bincode_serve_one(input: &[u8]) -> Result<(Vec<u8>, usize), RPCError> {
    let t = BincodeTransport::new(());
    let (id, mut rd) = t.rx_begin_call(input)?;
    let used = 10 + decode_header(&input[..10])?;
    let ret = match table().resolve(&id)? {
        0 => {
            let a: String = bincode_param(&mut rd)?;
            let b: i32 = bincode_param(&mut rd)?;
            bar(a, b)
        }
        _ => expect_error(),
    };
    let out = t.tx_response(&bincode::serialize(&ret).unwrap())?;
    Ok((out, used))
}

fn bincode_response(wire: &[u8]) -> Result<String, String> {
    let t = BincodeTransport::new(());
    let payload = t.rx_response(wire).unwrap();
    bincode::deserialize(&payload).unwrap()
}

/// Serves the calls of `stream` one after another, as a server loop does,
/// until the loop's decision is to stop; the responses and the loop's result.
fn bincode_serve_loop(stream: &[u8]) -> (Vec<Vec<u8>>, Result<(), RPCError>) {
    let mut at = 0;
    let mut responses = Vec::new();
    loop {
        let outcome = match bincode_serve_one(&stream[at..]) {
            Ok((resp, used)) => {
                responses.push(resp);
                at += used;
                Ok(())
            }
            Err(e) => Err(e),
        };
        if let ServeStep::Stop(r) = serve_step(outcome) {
            return (responses, r);
        }
    }
}

#[test]
fn basic_basic_bincode() {
    let call = bincode_call_bar("the answer", 42);
    let (resp, _) = bincode_serve_one(&call).unwrap();
    match bincode_response(&resp) {
        Ok(result) => assert_eq!("the answer is 42", result),
        Err(e) => panic!("error: {:?}", e),
    }
}

#[test]
fn serve_single_call_ok_bincode() {
    let call = bincode_call_bar("the answer", 42);
    let (resp, used) = bincode_serve_one(&call).unwrap();
    assert_eq!(used, call.len());
    assert_eq!(bincode_response(&resp), Ok("the answer is 42".to_string()));
}

#[test]
fn serve_multiple() {
    let mut stream = bincode_call_bar("the answer", 42);
    stream.extend(bincode_call_bar("the answer", 43));
    let (responses, end) = bincode_serve_loop(&stream);
    assert_eq!(responses.len(), 2);
    match bincode_response(&responses[0]) {
        Ok(result) => assert_eq!("the answer is 42", result),
        Err(e) => panic!("error: {:?}", e),
    }
    match bincode_response(&responses[1]) {
        Ok(result) => assert_eq!("the answer is 43", result),
        Err(e) => panic!("error: {:?}", e),
    }
    assert_eq!(end.unwrap_err().kind, RPCErrorKind::TransportEOF);
}

#[test]
fn serve_multiple_eof_on_disconnect_bincode() {
    let stream = bincode_call_bar("the answer", 42);
    let (responses, end) = bincode_serve_loop(&stream);
    assert_eq!(responses.len(), 1);
    match end {
        Ok(_) => panic!("Expected EOF error"),
        Err(e) => assert_eq!(e.kind, RPCErrorKind::TransportEOF),
    }
}

#[test]
fn serve_until_condition_stops_between_calls() {
    let mut stream = bincode_call_bar("the answer", 42);
    stream.extend(bincode_call_bar("the answer", 43));
    let mut at = 0;
    let mut served = 0;
    let end = loop {
        let outcome = match bincode_serve_one(&stream[at..]) {
            Ok((_, used)) => {
                at += used;
                served += 1;
                Ok(())
            }
            Err(e) => Err(e),
        };
        let again = outcome.is_ok() && served < 1;
        if let ServeStep::Stop(r) = serve_until_step(outcome, again) {
            break r;
        }
    };
    assert!(end.is_ok());
    assert_eq!(served, 1);
    assert_eq!(at, stream.len() / 2);
}

#[test]
fn propagates_error_bincode() {
    let (resp, _) = bincode_serve_one(&bincode_call_expect_error()).unwrap();
    match bincode_response(&resp) {
        Ok(_) => panic!("Should have generated an error"),
        Err(e) => assert_eq!(&e, "iamerror"),
    }
}

#[test]
fn big_buffer_argument() {
    let big: Vec<u8> = vec![7u8; 256 * 1024];
    let t = BincodeTransport::new(());
    let mut st = t.tx_begin_call(&BAR).unwrap();
    t.tx_add_param("v", &bincode::serialize(&big).unwrap(), &mut st);
    let wire = t.tx_finalize(st).unwrap();
    let (id, mut rd) = t.rx_begin_call(&wire).unwrap();
    assert!(matches!(id, PartialMethodId::Num(0)));
    let back: Vec<u8> = bincode_param(&mut rd).unwrap();
    assert_eq!(back, big);
    assert!(rd.remaining().is_empty());
}

#[test]
fn unknown_method_index_bincode() {
    let t = BincodeTransport::new(());
    let st = t.tx_begin_call(&MethodId { name: "nope", num: 7 }).unwrap();
    let wire = t.tx_finalize(st).unwrap();
    match bincode_serve_one(&wire) {
        Ok(_) => panic!("Expected an unknown method"),
        Err(e) => assert_eq!(e.kind, RPCErrorKind::UnknownMethod),
    }
}

#[test]
fn method_index_is_little_endian() {
    let t = BincodeTransport::new(());
    let st = t.tx_begin_call(&MethodId { name: "m", num: 0x01020304 }).unwrap();
    assert_eq!(st, vec![4, 3, 2, 1]);
}

#[test]
fn call_too_short_for_method_index_is_malformed() {
    let t = BincodeTransport::new(());
    let wire = t.tx_finalize(vec![1, 0]).unwrap();
    match t.rx_begin_call(&wire) {
        Ok(_) => panic!("Expected a serialization error"),
        Err(e) => assert_eq!(e.kind, RPCErrorKind::SerializationError),
    }
    match t.rx_begin_call(&wire[..wire.len() - 1]) {
        Ok(_) => panic!("Expected EOF error"),
        Err(e) => assert_eq!(e.kind, RPCErrorKind::TransportEOF),
    }
}

#[test]
fn bincode_error_kinds() {
    let e = decode_error(DecodeFailure::Eof);
    assert_eq!(e.kind, RPCErrorKind::TransportEOF);
    assert_eq!(e.message(), "EOF during bincode deserialization");
    let e = decode_error(DecodeFailure::Invalid("bad tag".to_string()));
    assert_eq!(e.kind, RPCErrorKind::SerializationError);
    assert_eq!(e.message(), "bincode deserialization failure");
    assert_eq!(e.cause().unwrap().description(), "bad tag");
    let e = encode_error("too big".to_string());
    assert_eq!(e.kind, RPCErrorKind::SerializationError);
    assert_eq!(e.message(), "bincode serialization failure");
}

// ---- JSON codec ----

fn to_serde(v: &JsonValue) -> serde_json::Value {
    match v {
        JsonValue::Null => serde_json::Value::Null,
        JsonValue::Bool(b) => serde_json::Value::Bool(*b),
        JsonValue::Number(n) => serde_json::from_str(n).unwrap(),
        JsonValue::Str(s) => serde_json::Value::String(s.clone()),
        JsonValue::Array(a) => serde_json::Value::Array(a.iter().map(to_serde).collect()),
        JsonValue::Object(m) => serde_json::Value::Object(
            m.iter().map(|(k, v)| (k.clone(), to_serde(v))).collect(),
        ),
    }
}

fn from_serde(v: &serde_json::Value) -> JsonValue {
    match v {
        serde_json::Value::Null => JsonValue::Null,
        serde_json::Value::Bool(b) => JsonValue::Bool(*b),
        serde_json::Value::Number(n) => JsonValue::Number(n.to_string()),
        serde_json::Value::String(s) => JsonValue::Str(s.clone()),
        serde_json::Value::Array(a) => JsonValue::Array(a.iter().map(from_serde).collect()),
        serde_json::Value::Object(m) => {
            JsonValue::Object(m.iter().map(|(k, v)| (k.clone(), from_serde(v))).collect())
        }
    }
}

fn json_call(method: &MethodId, params: Vec<(&str, serde_json::Value)>) -> Vec<u8> {
    let t = JSONTransport::new(());
    let mut st = t.tx_begin_call(method).unwrap();
    for (name, v) in params {
        t.tx_add_param(name, from_serde(&v), &mut st).unwrap();
    }
    let env = t.tx_finalize(st).unwrap();
    serde_json::to_vec(&to_serde(&env)).unwrap()
}

fn json_param<T: serde::de::DeserializeOwned>(
    t: &JSONTransport<()>,
    name: &'static str,
    st: &essrpc::JRXState,
) -> Result<T, RPCError> {
    let v = t.rx_read_param(name, st)?;
    serde_json::from_value(to_serde(v))
        .map_err(|e| essrpc::json_codec::convert_error(e.to_string()))
}

/// Serves the one call in `buf`, the bytes received before the client
/// closed the channel.
fn json_serve_one(buf: &mut Vec<u8>) -> Result<Vec<u8>, RPCError> {
    let codec = JSONCodec::new();
    let msg = codec.decode_eof(buf)?;
    let value: serde_json::Value = serde_json::from_slice(&msg).unwrap();
    let t = JSONTransport::new(());
    let (id, st) = t.rx_begin_call(from_serde(&value))?;
    let ret = match table().resolve(&id)? {
        0 => {
            let a: String = json_param(&t, "a", &st)?;
            let b: i32 = json_param(&t, "b", &st)?;
            bar(a, b)
        }
        _ => expect_error(),
    };
    Ok(serde_json::to_vec(&ret).unwrap())
}

fn json_response(wire: Vec<u8>) -> Result<String, String> {
    let codec = JSONCodec::new();
    let mut buf = wire;
    let msg = codec.decode(&mut buf).unwrap().unwrap();
    serde_json::from_slice(&msg).unwrap()
}

fn bar_params(a: &str, b: i32) -> Vec<(&'static str, serde_json::Value)> {
    vec![("a", serde_json::Value::from(a)), ("b", serde_json::Value::from(b))]
}

#[test]
fn basic_basic_json() {
    let mut call = json_call(&BAR, bar_params("the answer", 42));
    let resp = json_serve_one(&mut call).unwrap();
    match json_response(resp) {
        Ok(result) => assert_eq!("the answer is 42", result),
        Err(e) => panic!("error: {:?}", e),
    }
}

#[test]
fn serve_single_call_ok_json() {
    let mut call = json_call(&BAR, bar_params("the answer", 42));
    let resp = json_serve_one(&mut call).unwrap();
    assert!(call.is_empty());
    assert_eq!(json_response(resp), Ok("the answer is 42".to_string()));
}

#[test]
fn basic_propagates_error() {
    let mut call = json_call(&EXPECT_ERROR, vec![]);
    let resp = json_serve_one(&mut call).unwrap();
    match json_response(resp) {
        Ok(_) => panic!("Should have generated an error"),
        Err(e) => assert_eq!(&e, "iamerror"),
    }
}

#[test]
fn serve_multiple_eof_on_disconnect_json() {
    // Each element is what the server reads before the next call; the last,
    // empty, is what remains after the client closed the channel.
    let mut reads = vec![
        json_call(&BAR, bar_params("the answer", 42)),
        json_call(&BAR, bar_params("the answer", 43)),
        Vec::new(),
    ];
    let mut responses = Vec::new();
    let mut next = 0;
    let end = loop {
        let outcome = json_serve_one(&mut reads[next]).map(|resp| responses.push(resp));
        next += 1;
        if let ServeStep::Stop(r) = serve_step(outcome) {
            break r;
        }
    };
    assert_eq!(next, 3);
    assert_eq!(json_response(responses.remove(0)), Ok("the answer is 42".to_string()));
    assert_eq!(json_response(responses.remove(0)), Ok("the answer is 43".to_string()));
    match end {
        Ok(_) => panic!("Expected EOF error"),
        Err(e) => assert_eq!(e.kind, RPCErrorKind::TransportEOF),
    }
}

#[test]
fn json_params_by_name_in_any_order() {
    let mut call = json_call(
        &BAR,
        vec![
            ("extra", serde_json::Value::from(true)),
            ("b", serde_json::Value::from(7)),
            ("a", serde_json::Value::from("seven")),
        ],
    );
    let resp = json_serve_one(&mut call).unwrap();
    assert_eq!(json_response(resp), Ok("seven is 7".to_string()));
}

#[test]
fn json_missing_param_is_named() {
    let mut call = json_call(&BAR, vec![("a", serde_json::Value::from("x"))]);
    match json_serve_one(&mut call) {
        Ok(_) => panic!("Expected a missing parameter"),
        Err(e) => {
            assert_eq!(e.kind, RPCErrorKind::SerializationError);
            assert_eq!(e.message(), "parameters do not contain b");
        }
    }
}

#[test]
fn json_unknown_method_name() {
    let mut call = json_call(&MethodId { name: "nope", num: 0 }, vec![]);
    match json_serve_one(&mut call) {
        Ok(_) => panic!("Expected an unknown method"),
        Err(e) => assert_eq!(e.kind, RPCErrorKind::UnknownMethod),
    }
}

#[test]
fn json_envelope_shape() {
    let t = JSONTransport::new(());
    let mut st = t.tx_begin_call(&BAR).unwrap();
    t.tx_add_param("a", JsonValue::Str("x".to_string()), &mut st).unwrap();
    t.tx_add_param("a", JsonValue::Str("y".to_string()), &mut st).unwrap();
    let env = t.tx_finalize(st).unwrap();
    let v = to_serde(&env);
    assert_eq!(v["jsonrpc"], "2.0");
    assert_eq!(v["method"], "bar");
    let mut params = serde_json::Map::new();
    params.insert("a".to_string(), serde_json::Value::from("y"));
    assert_eq!(v["params"], serde_json::Value::Object(params));
    assert_eq!(v["id"].as_str().unwrap().len(), 36);
}

#[test]
fn big_buffer_response() {
    let big: Vec<u8> = vec![0u8; 256 * 1024];
    let t = BincodeTransport::new(());
    let encoded = bincode::serialize(&Ok::<Vec<u8>, String>(big.clone())).unwrap();
    let wire = t.tx_response(&encoded).unwrap();
    let payload = t.rx_response(&wire).unwrap();
    let back: Result<Vec<u8>, String> = bincode::deserialize(&payload).unwrap();
    assert_eq!(back.unwrap().len(), 256 * 1024);
}

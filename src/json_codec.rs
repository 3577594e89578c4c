//! The JSON codec. A call travels as one JSON object, its envelope,
//! `{"jsonrpc": "2.0", "method": <name>, "params": {<name>: <value>, ...}, "id": <token>}`,
//! with the parameters looked up by name; a response is the bare result
//! value. Values are held as [`JsonValue`]; turning JSON text into values
//! and back is left to the caller's JSON library.
use vstd::prelude::*;
use vstd::string::StringSliceAdditionalSpecFns;
use vstd::utf8::{decode_utf8, valid_utf8};

use crate::error::{DecodeFailure, GenericSerializableError, RPCError, RPCErrorKind};
use crate::method::{
    lemma_name_absent, lemma_name_found, lemma_name_position, name_position, MethodId,
    PartialMethodId,
};

verus! {

/// A JSON value. Numbers keep their textual form; an object keeps its
/// members in order.
#[derive(Debug)]
pub enum JsonValue {
    Null,
    Bool(bool),
    Number(String),
    Str(String),
    Array(Vec<JsonValue>),
    Object(Vec<(String, JsonValue)>),
}

/// The keys of an object's members, in order.
pub open spec fn member_keys(members: Seq<(String, JsonValue)>) -> Seq<Seq<char>> {
    members.map_values(|m: (String, JsonValue)| m.0@)
}

/// The value of the first member named `key`, if any.
pub open spec fn member_get(members: Seq<(String, JsonValue)>, key: Seq<char>) -> Option<
    JsonValue,
> {
    match name_position(member_keys(members), key) {
        Some(i) => Some(members[i].1),
        None => None,
    }
}

/// The member `key` of `v`, when `v` is an object that has one.
pub open spec fn json_get(v: JsonValue, key: Seq<char>) -> Option<JsonValue> {
    match v {
        JsonValue::Object(members) => member_get(members@, key),
        _ => None,
    }
}

/// `after` is `before` with `key` set to `value`: the first member of that
/// name takes the new value, or a new member is added at the end.
pub open spec fn member_set(
    before: Seq<(String, JsonValue)>,
    after: Seq<(String, JsonValue)>,
    key: Seq<char>,
    value: JsonValue,
) -> bool {
    match name_position(member_keys(before), key) {
        Some(i) => after == before.update(i, (before[i].0, value)),
        None => after.len() == before.len() + 1 && after.take(before.len() as int) == before
            && after.last().0@ == key && after.last().1 == value,
    }
}

/// Finds the first member named `key`.
fn member_position(members: &Vec<(String, JsonValue)>, key: &String) -> (r: Option<usize>)
    ensures
        r matches Some(i) ==> i < members@.len() && name_position(member_keys(members@), key@)
            == Some(i as int),
        r is None ==> name_position(member_keys(members@), key@) is None,
{
    let ghost keys = member_keys(members@);
    let mut i: usize = 0;
    while i < members.len()
        invariant
            keys == member_keys(members@),
            i <= members@.len(),
            forall|j: int| 0 <= j < i ==> keys[j] != key@,
        decreases members@.len() - i,
    {
        if members[i].0 == *key {
            proof {
                lemma_name_found(keys, key@, i as int);
            }
            return Some(i);
        }
        i = i + 1;
    }
    assert(name_position(keys, key@) is None) by {
        if exists|k: int|
            0 <= k < keys.len() && keys[k] == key@ && (forall|j: int|
                0 <= j < k ==> keys[j] != key@) {
            let k = choose|k: int|
                0 <= k < keys.len() && keys[k] == key@ && (forall|j: int|
                    0 <= j < k ==> keys[j] != key@);
            assert(keys[k] != key@);
        }
    }
    None
}

impl JsonValue {
    /// The member `key` of this value, when it is an object that has one.
    pub fn get(&self, key: &str) -> (r: Option<&JsonValue>)
        ensures
            match json_get(*self, key@) {
                Some(x) => r matches Some(v) && *v == x,
                None => r is None,
            },
    {
        match self {
            JsonValue::Object(members) => {
                let k = key.to_owned();
                match member_position(members, &k) {
                    Some(i) => Some(&members[i].1),
                    None => None,
                }
            },
            _ => None,
        }
    }
}

/// State of a call being built: the method's name and the parameters
/// added so far.
pub struct JTXState {
    method: String,
    params: Vec<(String, JsonValue)>,
}

impl JTXState {
    /// Name of the method called.
    pub closed spec fn spec_method(&self) -> Seq<char> {
        self.method@
    }

    /// Parameters added so far, as the members of the envelope's `params`.
    pub closed spec fn spec_params(&self) -> Seq<(String, JsonValue)> {
        self.params@
    }
}

/// Whether a member has the name `key` and the string value `text`.
pub open spec fn member_is_str(m: (String, JsonValue), key: Seq<char>, text: Seq<char>) -> bool {
    m.0@ == key && match m.1 {
        JsonValue::Str(t) => t@ == text,
        _ => false,
    }
}

/// Whether `v` is the envelope of a call of `method` with the parameters
/// `params` and the call token `id`.
pub open spec fn is_envelope(
    v: JsonValue,
    method: Seq<char>,
    params: Seq<(String, JsonValue)>,
    id: Seq<char>,
) -> bool {
    match v {
        JsonValue::Object(ms) => {
            &&& ms@.len() == 4
            &&& member_is_str(ms@[0], "jsonrpc"@, "2.0"@)
            &&& member_is_str(ms@[1], "method"@, method)
            &&& ms@[2].0@ == "params"@
            &&& match ms@[2].1 {
                JsonValue::Object(ps) => ps@ == params,
                _ => false,
            }
            &&& member_is_str(ms@[3], "id"@, id)
        },
        _ => false,
    }
}

/// The message of the error for a parameter that a call does not carry.
pub open spec fn missing_param_message(name: Seq<char>) -> Seq<char> {
    "parameters do not contain "@ + name
}

/// Relies on `uuid::Uuid::new_v4` and the hyphenated form that its
/// `Display` writes: 36 characters, lowercase hex digits in groups of
/// 8-4-4-4-12 parted by hyphens, the version digit `4` opening the third.
#[verifier::external_body]
fn new_call_id() -> (r: String)
    ensures
        r@.len() == 36,
        r@[8] == '-' && r@[13] == '-' && r@[18] == '-' && r@[23] == '-',
        r@[14] == '4',
        forall|i: int|
            0 <= i < 36 && i != 8 && i != 13 && i != 18 && i != 23 ==> ('0' <= #[trigger] r@[i]
                <= '9' || 'a' <= r@[i] <= 'f'),
{
    uuid::Uuid::new_v4().to_string()
}

impl JTXState {
    /// State of a call of the method `method` with no parameters yet.
    pub fn begin(method: &str) -> (r: Self)
        ensures
            r.spec_method() == method@,
            r.spec_params().len() == 0,
    {
        JTXState { method: method.to_owned(), params: Vec::new() }
    }

    /// Sets the parameter `name` to `value`; a parameter of that name that
    /// was already added takes the new value.
    pub fn add_param(&mut self, name: &str, value: JsonValue)
        ensures
            final(self).spec_method() == old(self).spec_method(),
            member_set(old(self).spec_params(), final(self).spec_params(), name@, value),
    {
        let key = name.to_owned();
        match member_position(&self.params, &key) {
            Some(i) => {
                let k = self.params[i].0.clone();
                self.params.set(i, (k, value));
            },
            None => {
                let ghost before = self.params@;
                self.params.push((key, value));
                assert(self.params@.take(before.len() as int) =~= before);
            },
        }
    }

    /// The envelope of the call, with the call token `id`.
    pub fn into_envelope(self, id: String) -> (r: JsonValue)
        ensures
            is_envelope(r, self.spec_method(), self.spec_params(), id@),
    {
        let JTXState { method, params } = self;
        let mut ms: Vec<(String, JsonValue)> = Vec::new();
        ms.push((String::from_str("jsonrpc"), JsonValue::Str(String::from_str("2.0"))));
        ms.push((String::from_str("method"), JsonValue::Str(method)));
        ms.push((String::from_str("params"), JsonValue::Object(params)));
        ms.push((String::from_str("id"), JsonValue::Str(id)));
        JsonValue::Object(ms)
    }
}

/// State of a call being read: the received envelope.
pub struct JRXState {
    json: JsonValue,
}

impl JRXState {
    /// The received envelope.
    pub closed spec fn spec_json(&self) -> JsonValue {
        self.json
    }
}

/// The error for a value that could not be turned into or out of JSON;
/// keeps the JSON library's description as the cause.
pub fn convert_error(description: String) -> (r: RPCError)
    ensures
        r.spec_kind() == RPCErrorKind::SerializationError,
        r.spec_message() == "json serialization or deserialization failed"@,
        r.spec_cause() matches Some(c) && c.spec_chain() == seq![description@],
{
    let cause = GenericSerializableError::new(description, None);
    proof {
        cause.lemma_chain_shape();
    }
    RPCError::with_cause(
        RPCErrorKind::SerializationError,
        "json serialization or deserialization failed",
        cause,
    )
}

/// The error for a JSON value that could not be read: input that ended
/// before the value was complete is an end of stream, anything else a
/// serialization error.
pub fn read_error(failure: DecodeFailure) -> (r: RPCError)
    ensures
        failure is Eof ==> r.spec_kind() == RPCErrorKind::TransportEOF && r.spec_message()
            == "EOF during json deserialization"@ && r.spec_cause() is None,
        failure matches DecodeFailure::Invalid(d) ==> (r.spec_kind()
            == RPCErrorKind::SerializationError && r.spec_message()
            == "json serialization or deserialization failed"@ && (r.spec_cause() matches Some(c)
            && c.spec_chain() == seq![d@])),
{
    match failure {
        DecodeFailure::Eof => RPCError::new(
            RPCErrorKind::TransportEOF,
            "EOF during json deserialization",
        ),
        DecodeFailure::Invalid(d) => convert_error(d),
    }
}

/// Transport over a byte channel that carries calls as JSON envelopes.
/// The transport holds the channel, which its user drives, together with a
/// JSON library that turns [`JsonValue`]s into text and back.
pub struct JSONTransport<C> {
    channel: C,
}

impl<C> JSONTransport<C> {
    /// The underlying channel.
    pub closed spec fn spec_channel(&self) -> C {
        self.channel
    }

    /// Transport over `channel`.
    pub fn new(channel: C) -> (r: Self)
        ensures
            r.spec_channel() == channel,
    {
        JSONTransport { channel }
    }

    /// Get the underlying read/write channel.
    pub fn channel(&self) -> (r: &C)
        ensures
            *r == self.spec_channel(),
    {
        &self.channel
    }

    /// Get the underlying channel for reading and writing.
    pub fn channel_mut(&mut self) -> (r: &mut C)
        ensures
            *r == old(self).spec_channel(),
            final(self).spec_channel() == *final(r),
    {
        &mut self.channel
    }

    /// Begins a call of `method`, which is named in the envelope.
    pub fn tx_begin_call(&self, method: &MethodId) -> (r: Result<JTXState, RPCError>)
        ensures
            r matches Ok(st) && st.spec_method() == method.name@ && st.spec_params().len() == 0,
    {
        Ok(JTXState::begin(method.name))
    }

    /// Adds the parameter `name`, given as a JSON value.
    pub fn tx_add_param(&self, name: &str, value: JsonValue, state: &mut JTXState) -> (r: Result<
        (),
        RPCError,
    >)
        ensures
            r is Ok,
            final(state).spec_method() == old(state).spec_method(),
            member_set(old(state).spec_params(), final(state).spec_params(), name@, value),
    {
        state.add_param(name, value);
        Ok(())
    }

    /// Finishes a call: its envelope, with a freshly generated call token,
    /// to be written to the channel as one JSON text.
    pub fn tx_finalize(&self, state: JTXState) -> (r: Result<JsonValue, RPCError>)
        ensures
            r matches Ok(v) && exists|id: Seq<char>|
                id.len() == 36 && is_envelope(v, state.spec_method(), state.spec_params(), id),
    {
        let id = new_call_id();
        let ghost idv = id@;
        let v = state.into_envelope(id);
        assert(idv.len() == 36 && is_envelope(v, state.spec_method(), state.spec_params(), idv));
        Ok(v)
    }

    /// Begins reading a call from the envelope read from the channel: the
    /// method's name, and the envelope kept for reading the parameters.
    pub fn rx_begin_call(&self, request: JsonValue) -> (r: Result<(PartialMethodId, JRXState), RPCError>)
        ensures
            match json_get(request, "method"@) {
                Some(JsonValue::Str(s)) => r matches Ok((id, st)) && id == PartialMethodId::Name(s)
                    && st.spec_json() == request,
                _ => r matches Err(e) && e.spec_kind() == RPCErrorKind::SerializationError,
            },
    {
        let method = match request.get("method") {
            None => {
                return Err(
                    RPCError::new(RPCErrorKind::SerializationError, "json is not expected object"),
                );
            },
            Some(m) => match m {
                JsonValue::Str(s) => s.clone(),
                _ => {
                    return Err(
                        RPCError::new(RPCErrorKind::SerializationError, "json method was not string"),
                    );
                },
            },
        };
        Ok((PartialMethodId::Name(method), JRXState { json: request }))
    }

    /// Reads the parameter `name` of a call begun with
    /// [`Self::rx_begin_call`]. Parameters are found by name: members that
    /// are not asked for, and the order of the members, do not matter.
    pub fn rx_read_param<'a>(&self, name: &str, state: &'a JRXState) -> (r: Result<
        &'a JsonValue,
        RPCError,
    >)
        ensures
            match json_get(state.spec_json(), "params"@) {
                None => r matches Err(e) && e.spec_kind() == RPCErrorKind::SerializationError,
                Some(p) => match json_get(p, name@) {
                    Some(x) => r matches Ok(v) && *v == x,
                    None => r matches Err(e) && e.spec_kind() == RPCErrorKind::SerializationError
                        && e.spec_message() == missing_param_message(name@),
                },
            },
    {
        let params = match state.json.get("params") {
            Some(p) => p,
            None => {
                return Err(
                    RPCError::new(RPCErrorKind::SerializationError, "json is not expected object"),
                );
            },
        };
        match params.get(name) {
            Some(v) => Ok(v),
            None => {
                let mut msg = String::from_str("parameters do not contain ");
                msg.append(name);
                Err(RPCError::new(RPCErrorKind::SerializationError, msg.as_str()))
            },
        }
    }
}

/// Reading of an envelope back from the value the client built: the method
/// name is found, and each parameter reads as the value last added under
/// its name; a name never added is missing.
pub proof fn lemma_envelope_round_trip(
    v: JsonValue,
    method: Seq<char>,
    params: Seq<(String, JsonValue)>,
    id: Seq<char>,
    name: Seq<char>,
)
    requires
        is_envelope(v, method, params, id),
    ensures
        json_get(v, "method"@) matches Some(m) && (m matches JsonValue::Str(s) && s@ == method),
        json_get(v, "params"@) matches Some(p) && json_get(p, name) == member_get(params, name),
{
    reveal_strlit("jsonrpc");
    reveal_strlit("method");
    reveal_strlit("params");
    let ms = v->Object_0;
    let keys = member_keys(ms@);
    assert(keys[0] == "jsonrpc"@);
    assert(keys[1] == "method"@);
    assert(keys[2] == "params"@);
    assert(keys[0] != "method"@);
    assert(keys[0] != "params"@);
    assert(keys[1] != "params"@) by {
        assert(keys[1][0] != "params"@[0]);
    }
    lemma_name_found(keys, "method"@, 1);
    lemma_name_found(keys, "params"@, 2);
}

/// Setting a parameter makes it read as the value set, and leaves every
/// parameter of another name reading as before; so each parameter of a call
/// reads as the value last added under its name.
pub proof fn lemma_member_set_get(
    before: Seq<(String, JsonValue)>,
    after: Seq<(String, JsonValue)>,
    key: Seq<char>,
    value: JsonValue,
    other: Seq<char>,
)
    requires
        member_set(before, after, key, value),
    ensures
        member_get(after, key) == Some(value),
        other != key ==> member_get(after, other) == member_get(before, other),
{
    let kb = member_keys(before);
    let ka = member_keys(after);
    lemma_name_position(kb, key);
    lemma_name_position(kb, other);
    match name_position(kb, key) {
        Some(i) => {
            assert(ka =~= kb);
        },
        None => {
            lemma_name_absent(kb, key);
            let n = before.len() as int;
            assert forall|j: int| 0 <= j < n implies ka[j] == kb[j] by {
                assert(after[j] == after.take(n)[j]);
            }
            assert(ka[n] == key);
            lemma_name_found(ka, key, n);
            if other != key {
                match name_position(kb, other) {
                    Some(j) => {
                        lemma_name_found(ka, other, j);
                        assert(after[j] == after.take(n)[j]);
                    },
                    None => {
                        lemma_name_absent(kb, other);
                        lemma_name_absent(ka, other);
                    },
                }
            }
        },
    }
}

/// Whether a text is one complete JSON value, the beginning of one that
/// has not ended yet, or no JSON at all.
#[derive(Debug)]
pub enum JsonTextStatus {
    Complete,
    Incomplete,
    Invalid(String),
}

/// What the JSON parser makes of a text.
pub uninterp spec fn json_text_status(s: Seq<char>) -> JsonTextStatus;

/// Number of `0` digits after `0.` from which a text is not handed to the
/// JSON parser. The parser counts a number's exponent, an `i16`, down once
/// per fraction digit: for every zero while the mantissa is still 0, and for
/// at most 20 digits more once it is not. With fewer zeros than this the
/// count stays at or above `i16::MIN`.
pub const ZERO_RUN_LIMIT: usize = 32749;

/// Whether a byte is an ASCII digit.
pub open spec fn is_digit(c: u8) -> bool {
    0x30u8 <= c <= 0x39u8
}

/// Where the first `n` bytes of `b` leave a reader of JSON text: inside a
/// string, and just after a backslash in it.
pub open spec fn string_state(b: Seq<u8>, n: int) -> (bool, bool)
    decreases n,
{
    if n <= 0 {
        (false, false)
    } else {
        let st = string_state(b, n - 1);
        let c = b[n - 1];
        if !st.0 {
            (c == 0x22u8, false)
        } else if st.1 {
            (true, false)
        } else if c == 0x5Cu8 {
            (true, true)
        } else {
            (c != 0x22u8, false)
        }
    }
}

/// At `i`, outside any string, stands the `.` of a number whose integer
/// part is `0`, followed by at least [`ZERO_RUN_LIMIT`] `0` digits.
pub open spec fn long_zero_fraction_at(b: Seq<u8>, i: int) -> bool {
    &&& 1 <= i
    &&& i + ZERO_RUN_LIMIT < b.len()
    &&& !string_state(b, i).0
    &&& b[i] == 0x2Eu8
    &&& b[i - 1] == 0x30u8
    &&& (i == 1 || !is_digit(b[i - 2]))
    &&& forall|k: int| i < k <= i + ZERO_RUN_LIMIT ==> b[k] == 0x30u8
}

/// Every byte of `b` after position `i` is a `0` digit.
pub open spec fn zeros_to_end(b: Seq<u8>, i: int) -> bool {
    forall|k: int| i < k < b.len() ==> b[k] == 0x30u8
}

/// Somewhere in `b` a number has the long run of fraction zeros.
pub open spec fn has_long_zero_fraction(b: Seq<u8>) -> bool {
    exists|i: int| long_zero_fraction_at(b, i)
}

/// Such a number is followed by more text, so no later byte can make it
/// one that the parser takes.
pub open spec fn unreadable_number(b: Seq<u8>) -> bool {
    exists|i: int| long_zero_fraction_at(b, i) && !zeros_to_end(b, i)
}

/// Finds the first number with the long run of fraction zeros, tracking
/// strings and their escapes. Each run of zeros is looked at from the one
/// `.` before it, so the scan is linear.
fn find_long_zero_fraction(b: &[u8]) -> (r: Option<usize>)
    ensures
        r is None ==> !has_long_zero_fraction(b@),
        r matches Some(i) ==> long_zero_fraction_at(b@, i as int) && forall|j: int|
            0 <= j < i ==> !long_zero_fraction_at(b@, j),
{
    let n = b.len();
    let mut in_str = false;
    let mut escaped = false;
    let mut i: usize = 0;
    while i < n
        invariant
            n == b@.len(),
            i <= n,
            (in_str, escaped) == string_state(b@, i as int),
            forall|j: int| 0 <= j < i ==> !long_zero_fraction_at(b@, j),
        decreases n - i,
    {
        let c = b[i];
        if !in_str && c == 0x2Eu8 && i >= 1 && b[i - 1] == 0x30u8 && (i == 1 || !(0x30u8
            <= b[i - 2] && b[i - 2] <= 0x39u8)) && n - i > ZERO_RUN_LIMIT {
            let mut k: usize = 1;
            while k <= ZERO_RUN_LIMIT && b[i + k] == 0x30u8
                invariant
                    1 <= k <= ZERO_RUN_LIMIT + 1,
                    n == b@.len(),
                    i + ZERO_RUN_LIMIT < n,
                    forall|m: int| i < m < i + k ==> b@[m] == 0x30u8,
                decreases ZERO_RUN_LIMIT + 1 - k,
            {
                k = k + 1;
            }
            if k > ZERO_RUN_LIMIT {
                assert(long_zero_fraction_at(b@, i as int));
                return Some(i);
            }
            assert(b@[i + k] != 0x30u8);
        }
        if !in_str {
            in_str = c == 0x22u8;
            escaped = false;
        } else if escaped {
            escaped = false;
        } else if c == 0x5Cu8 {
            escaped = true;
        } else {
            in_str = c != 0x22u8;
        }
        i = i + 1;
    }
    assert(!has_long_zero_fraction(b@)) by {
        if exists|j: int| long_zero_fraction_at(b@, j) {
            let j = choose|j: int| long_zero_fraction_at(b@, j);
            assert(!long_zero_fraction_at(b@, j));
        }
    }
    None
}

/// Whether every byte after position `i` is a `0` digit.
fn all_zeros_after(b: &[u8], i: usize) -> (r: bool)
    requires
        i < b@.len(),
    ensures
        r == zeros_to_end(b@, i as int),
{
    let n = b.len();
    let mut k: usize = i;
    while k < n - 1
        invariant
            n == b@.len(),
            i <= k < n,
            forall|m: int| i < m <= k && m < n ==> b@[m] == 0x30u8,
        decreases n - k,
    {
        if b[k + 1] != 0x30u8 {
            return false;
        }
        k = k + 1;
    }
    true
}

/// Relies on `json::parse`: a text that ends before a value is complete,
/// the empty text among them, fails with `UnexpectedEndOfJson`. Outside
/// strings the parser counts a number's `i16` exponent down once per
/// fraction digit while the mantissa is still small (see [`ZERO_RUN_LIMIT`]),
/// so a text with such a long run of zeros after `0.` is not handed to it.
#[verifier::external_body]
fn parse_status(s: &str) -> (r: JsonTextStatus)
    requires
        !has_long_zero_fraction(s.spec_bytes()),
    ensures
        r == json_text_status(s@),
        s@.len() == 0 ==> r is Incomplete,
{
    match json::parse(s) {
        Ok(_) => JsonTextStatus::Complete,
        Err(json::Error::UnexpectedEndOfJson) => JsonTextStatus::Incomplete,
        Err(e) => JsonTextStatus::Invalid(e.to_string()),
    }
}

/// Relies on `std::str::from_utf8`: it succeeds exactly on valid UTF-8,
/// and the text then holds the decoded characters, as the same bytes.
#[verifier::external_body]
fn utf8_text<'a>(b: &'a [u8]) -> (r: Option<&'a str>)
    ensures
        valid_utf8(b@) ==> (r is Some && r->Some_0@ == decode_utf8(b@) && r->Some_0.spec_bytes()
            == b@),
        !valid_utf8(b@) ==> r is None,
{
    match std::str::from_utf8(b) {
        Ok(s) => Some(s),
        Err(_) => None,
    }
}

/// Splits a byte stream into JSON texts, one message each: the bytes
/// received so far form a message once they hold one complete JSON value.
/// Bytes that are not (yet) valid UTF-8 may end inside a character and are
/// waited on.
pub struct JSONCodec {}

impl JSONCodec {
    /// A codec.
    pub fn new() -> (r: Self) {
        JSONCodec {  }
    }

    /// Queues a message for sending: its bytes are appended as they are.
    pub fn encode(&self, item: &[u8], dst: &mut Vec<u8>)
        ensures
            final(dst)@ == old(dst)@ + item@,
    {
        let ghost start = dst@;
        let mut i: usize = 0;
        while i < item.len()
            invariant
                i <= item@.len(),
                dst@ == start + item@.subrange(0, i as int),
            decreases item@.len() - i,
        {
            dst.push(item[i]);
            i = i + 1;
            assert(dst@ =~= start + item@.subrange(0, i as int));
        }
        assert(item@.subrange(0, i as int) =~= item@);
    }

    /// Takes a message out of the bytes received so far, if they hold a
    /// complete one; otherwise leaves them to wait for more. Bytes that are
    /// not (yet) valid UTF-8 are waited on. A number written `0.` followed by
    /// [`ZERO_RUN_LIMIT`] zeros or more, which the JSON parser cannot take,
    /// is waited on while its zeros run to the end of the bytes, and refused
    /// once anything follows them.
    pub fn decode(&self, src: &mut Vec<u8>) -> (r: Result<Option<Vec<u8>>, RPCError>)
        ensures
            !valid_utf8(old(src)@) ==> (r matches Ok(None) && final(src)@ == old(src)@),
            valid_utf8(old(src)@) && unreadable_number(old(src)@) ==> (r matches Err(e)
                && e.spec_kind() == RPCErrorKind::SerializationError && final(src)@ == old(
                src,
            )@),
            valid_utf8(old(src)@) && has_long_zero_fraction(old(src)@) && !unreadable_number(
                old(src)@,
            ) ==> (r matches Ok(None) && final(src)@ == old(src)@),
            valid_utf8(old(src)@) && !has_long_zero_fraction(old(src)@) ==> match json_text_status(
                decode_utf8(old(src)@),
            ) {
                JsonTextStatus::Complete => r matches Ok(Some(m)) && m@ == old(src)@
                    && final(src)@.len() == 0,
                JsonTextStatus::Incomplete => r matches Ok(None) && final(src)@ == old(src)@,
                JsonTextStatus::Invalid(_) => r matches Err(e) && e.spec_kind()
                    == RPCErrorKind::SerializationError && final(src)@ == old(src)@,
            },
            old(src)@.len() == 0 ==> r matches Ok(None),
    {
        let status = match utf8_text(src.as_slice()) {
            None => {
                return Ok(None);
            },
            Some(s) => {
                match find_long_zero_fraction(src.as_slice()) {
                    Some(i) => {
                        if all_zeros_after(src.as_slice(), i) {
                            assert(!unreadable_number(src@)) by {
                                if exists|j: int|
                                    long_zero_fraction_at(src@, j) && !zeros_to_end(src@, j) {
                                    let j = choose|j: int|
                                        long_zero_fraction_at(src@, j) && !zeros_to_end(src@, j);
                                    if j > i {
                                        assert(src@[j] != 0x30u8);
                                    } else if j == i {
                                    } else {
                                        assert(!long_zero_fraction_at(src@, j));
                                    }
                                }
                            }
                            return Ok(None);
                        }
                        return Err(
                            RPCError::new(
                                RPCErrorKind::SerializationError,
                                "json number has too long a fraction",
                            ),
                        );
                    },
                    None => parse_status(s),
                }
            },
        };
        match status {
            JsonTextStatus::Complete => Ok(Some(src.split_off(0))),
            JsonTextStatus::Incomplete => Ok(None),
            JsonTextStatus::Invalid(d) => Err(convert_error(d)),
        }
    }

    /// Takes the last message out of the bytes received before the peer
    /// closed the channel: bytes that do not hold a complete JSON value,
    /// no bytes at all among them, are an end of stream.
    pub fn decode_eof(&self, src: &mut Vec<u8>) -> (r: Result<Vec<u8>, RPCError>)
        ensures
            !valid_utf8(old(src)@) ==> (r matches Err(e) && e.spec_kind()
                == RPCErrorKind::TransportEOF),
            valid_utf8(old(src)@) && unreadable_number(old(src)@) ==> (r matches Err(e)
                && e.spec_kind() == RPCErrorKind::SerializationError),
            valid_utf8(old(src)@) && has_long_zero_fraction(old(src)@) && !unreadable_number(
                old(src)@,
            ) ==> (r matches Err(e) && e.spec_kind() == RPCErrorKind::TransportEOF),
            valid_utf8(old(src)@) && !has_long_zero_fraction(old(src)@) ==> match json_text_status(
                decode_utf8(old(src)@),
            ) {
                JsonTextStatus::Complete => r matches Ok(m) && m@ == old(src)@
                    && final(src)@.len() == 0,
                JsonTextStatus::Incomplete => r matches Err(e) && e.spec_kind()
                    == RPCErrorKind::TransportEOF,
                JsonTextStatus::Invalid(_) => r matches Err(e) && e.spec_kind()
                    == RPCErrorKind::SerializationError,
            },
            old(src)@.len() == 0 ==> (r matches Err(e) && e.spec_kind() == RPCErrorKind::TransportEOF),
    {
        match self.decode(src) {
            Ok(Some(m)) => Ok(m),
            Ok(None) => Err(read_error(DecodeFailure::Eof)),
            Err(e) => Err(e),
        }
    }
}

} // verus!

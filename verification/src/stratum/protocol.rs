use crate::text::{
    append_chars, append_str, chars_of, decimal, decimal_chars, hex16, hex16_chars,
    hex_digit_lower, same_text, string_from,
    strip_all_prefixes, trim_start_matches,
};
use crate::bytes::{le_value, le_word, lemma_le_value_word, pow256, read_le_word};
use crate::kheavyhash::{prefixed_nonce, Target};
use vstd::prelude::*;
use vstd::utf8::encode_utf8;

verus! {

// ── JSON text ────────────────────────────────────────────────────────────────

/// How serde_json writes one character inside a JSON string: '"' and '\\'
/// escaped with a backslash, the control characters U+08, U+09, U+0A, U+0C
/// and U+0D as \b \t \n \f \r, the other control characters below U+20 as
/// \u00XX with lower-case hex digits, and every other character as itself.
pub open spec fn json_escape_char(c: char) -> Seq<char> {
    let u = c as u32;
    if c == '"' {
        seq!['\\', '"']
    } else if c == '\\' {
        seq!['\\', '\\']
    } else if u == 0x08 {
        seq!['\\', 'b']
    } else if u == 0x09 {
        seq!['\\', 't']
    } else if u == 0x0A {
        seq!['\\', 'n']
    } else if u == 0x0C {
        seq!['\\', 'f']
    } else if u == 0x0D {
        seq!['\\', 'r']
    } else if u < 0x20 {
        seq!['\\', 'u', '0', '0', hex_digit_lower((u / 16) as nat), hex_digit_lower((u % 16) as nat)]
    } else {
        seq![c]
    }
}

/// The escaped contents of a JSON string holding `s`.
pub open spec fn json_escape(s: Seq<char>) -> Seq<char>
    decreases s.len(),
{
    if s.len() == 0 {
        Seq::empty()
    } else {
        json_escape(s.drop_last()) + json_escape_char(s.last())
    }
}

/// `s` as a JSON string literal, quotes included.
pub open spec fn json_quote(s: Seq<char>) -> Seq<char> {
    seq!['"'] + json_escape(s) + seq!['"']
}

/// Calls `serde_json::to_string` on a string slice. The contract states what
/// the crate's serializer writes for a string (its escape table): the text
/// in double quotes, escaped as `json_escape` says. Serializing a `str`
/// cannot fail, so the `unwrap` never panics.
#[verifier::external_body]
fn json_string(s: &str) -> (r: String)
    ensures
        r@ == json_quote(s@),
{
    serde_json::to_string(s).unwrap()
}

/// The JSON array elements for string parameters, separated by commas.
pub open spec fn json_items(ps: Seq<Seq<char>>) -> Seq<char>
    decreases ps.len(),
{
    if ps.len() == 0 {
        Seq::empty()
    } else if ps.len() == 1 {
        json_quote(ps[0])
    } else {
        json_items(ps.drop_last()) + seq![','] + json_quote(ps.last())
    }
}

/// One request line as the miner writes it: a compact JSON object with the
/// fields id, method and params in that order, then a newline.
pub open spec fn request_line(id: Option<u64>, method: Seq<char>, params: Seq<Seq<char>>) -> Seq<
    char,
> {
    "{\"id\":"@ + match id {
        Some(n) => decimal(n as nat),
        None => "null"@,
    } + ",\"method\":"@ + json_quote(method) + ",\"params\":["@ + json_items(params) + "]}\n"@
}

// ── wire types ──────────────────────────────────────────────────────────────

/// A request to the pool; every parameter the miner sends is a string.
#[derive(Debug, Clone)]
pub struct Request {
    pub id: Option<u64>,
    pub method: String,
    pub params: Vec<String>,
}

/// The texts of a list of strings.
pub open spec fn texts(v: Seq<String>) -> Seq<Seq<char>> {
    v.map_values(|s: String| s@)
}

impl Request {
    /// The request as one line of JSON.
    pub fn to_line(&self) -> (r: String)
        ensures
            r@ == request_line(self.id, self.method@, texts(self.params@)),
    {
        let mut v: Vec<char> = Vec::new();
        append_str(&mut v, "{\"id\":");
        match self.id {
            Some(n) => {
                let d = decimal_chars(n);
                append_chars(&mut v, &d);
            },
            None => append_str(&mut v, "null"),
        }
        append_str(&mut v, ",\"method\":");
        let m = json_string(self.method.as_str());
        append_str(&mut v, m.as_str());
        append_str(&mut v, ",\"params\":[");
        let ghost head = v@;
        let ghost ps = texts(self.params@);
        for i in 0..self.params.len()
            invariant
                ps == texts(self.params@),
                v@ == head + json_items(ps.take(i as int)),
        {
            assert(ps.take(i + 1).drop_last() =~= ps.take(i as int));
            if i > 0 {
                v.push(',');
            }
            let q = json_string(self.params[i].as_str());
            append_str(&mut v, q.as_str());
            assert(v@ =~= head + json_items(ps.take(i + 1)));
        }
        assert(ps.take(ps.len() as int) =~= ps);
        append_str(&mut v, "]}\n");
        string_from(v.as_slice())
    }
}

/// A JSON number as the miner reads it: its JSON text, and its value when it
/// is an integer that fits in 64 unsigned bits.
#[derive(Debug, Clone)]
pub struct JsonNumber {
    pub text: String,
    pub unsigned: Option<u64>,
}

/// A JSON value as the miner reads it: strings, booleans and numbers with
/// their value, arrays with their elements, objects with their members in
/// the order the parsed map keeps them.
pub enum JsonValue {
    Null,
    Bool(bool),
    Number(JsonNumber),
    Str(String),
    Array(Vec<JsonValue>),
    Object(Vec<(String, JsonValue)>),
}

/// The compact JSON text of a value: no white space, strings quoted and
/// escaped as `json_quote` says, numbers as their JSON text.
pub open spec fn json_text(v: JsonValue) -> Seq<char>
    decreases v,
{
    match v {
        JsonValue::Null => "null"@,
        JsonValue::Bool(b) => if b {
            "true"@
        } else {
            "false"@
        },
        JsonValue::Number(n) => n.text@,
        JsonValue::Str(s) => json_quote(s@),
        JsonValue::Array(a) => seq!['['] + json_list(a@) + seq![']'],
        JsonValue::Object(m) => seq!['{'] + json_members(m@) + seq!['}'],
    }
}

/// The compact JSON texts of array elements, separated by commas.
pub open spec fn json_list(items: Seq<JsonValue>) -> Seq<char>
    decreases items,
{
    if items.len() == 0 {
        Seq::empty()
    } else if items.len() == 1 {
        json_text(items[0])
    } else {
        json_list(items.subrange(0, items.len() - 1)) + seq![','] + json_text(
            items[items.len() - 1],
        )
    }
}

/// The compact JSON texts of object members, `"key":value`, separated by
/// commas.
pub open spec fn json_members(members: Seq<(String, JsonValue)>) -> Seq<char>
    decreases members,
{
    if members.len() == 0 {
        Seq::empty()
    } else if members.len() == 1 {
        json_quote(members[0].0@) + seq![':'] + json_text(members[0].1)
    } else {
        json_members(members.subrange(0, members.len() - 1)) + seq![','] + json_quote(
            members[members.len() - 1].0@,
        ) + seq![':'] + json_text(members[members.len() - 1].1)
    }
}

/// Appends the compact JSON text of `v` to `out`.
fn write_json(out: &mut Vec<char>, v: &JsonValue)
    ensures
        final(out)@ == old(out)@ + json_text(*v),
    decreases v,
{
    match v {
        JsonValue::Null => append_str(out, "null"),
        JsonValue::Bool(b) => {
            if *b {
                append_str(out, "true");
            } else {
                append_str(out, "false");
            }
        },
        JsonValue::Number(n) => append_str(out, n.text.as_str()),
        JsonValue::Str(t) => {
            let q = json_string(t.as_str());
            append_str(out, q.as_str());
        },
        JsonValue::Array(a) => {
            let ghost start = out@;
            out.push('[');
            for i in 0..a.len()
                invariant
                    *v == JsonValue::Array(*a),
                    out@ == start + seq!['['] + json_list(a@.subrange(0, i as int)),
            {
                let ghost before = out@;
                if i > 0 {
                    out.push(',');
                }
                proof {
                    assert(decreases_to!(*v => (*v)->Array_0));
                    assert((*v)->Array_0 == *a);
                    assert(decreases_to!(*a => a@));
                    assert(decreases_to!(a@ => a@[i as int]));
                }
                write_json(out, &a[i]);
                proof {
                    let t = a@.subrange(0, i + 1);
                    assert(t.subrange(0, t.len() - 1) =~= a@.subrange(0, i as int));
                    assert(t[t.len() - 1] == a@[i as int]);
                    if i == 0 {
                        assert(a@.subrange(0, 0) =~= Seq::<JsonValue>::empty());
                        assert(t[0] == a@[0]);
                    }
                }
            }
            assert(a@.subrange(0, a@.len() as int) =~= a@);
            out.push(']');
        },
        JsonValue::Object(m) => {
            let ghost start = out@;
            out.push('{');
            for i in 0..m.len()
                invariant
                    *v == JsonValue::Object(*m),
                    out@ == start + seq!['{'] + json_members(m@.subrange(0, i as int)),
            {
                if i > 0 {
                    out.push(',');
                }
                let q = json_string(m[i].0.as_str());
                append_str(out, q.as_str());
                out.push(':');
                proof {
                    assert(decreases_to!(*v => (*v)->Object_0));
                    assert((*v)->Object_0 == *m);
                    assert(decreases_to!(*m => m@));
                    assert(decreases_to!(m@ => m@[i as int]));
                    assert(decreases_to!(m@[i as int] => m@[i as int].1));
                }
                write_json(out, &m[i].1);
                proof {
                    let t = m@.subrange(0, i + 1);
                    assert(t.subrange(0, t.len() - 1) =~= m@.subrange(0, i as int));
                    assert(t[t.len() - 1] == m@[i as int]);
                    if i == 0 {
                        assert(m@.subrange(0, 0) =~= Seq::<(String, JsonValue)>::empty());
                        assert(t[0] == m@[0]);
                    }
                }
            }
            assert(m@.subrange(0, m@.len() as int) =~= m@);
            out.push('}');
        },
    }
}

/// The compact JSON text of a value, as serde_json writes it.
pub fn json_render(v: &JsonValue) -> (r: String)
    ensures
        r@ == json_text(*v),
{
    let mut out: Vec<char> = Vec::new();
    write_json(&mut out, v);
    assert(out@ =~= json_text(*v));
    string_from(out.as_slice())
}

/// A message from the pool: a notification (with a method) or a reply.
pub struct Response {
    pub id: Option<u64>,
    pub result: Option<JsonValue>,
    pub error: Option<JsonValue>,
    pub method: Option<String>,
    pub params: Option<JsonValue>,
}

/// A share found by a miner thread, to be submitted.
#[derive(Debug, Clone)]
pub struct Submission {
    pub job_id: String,
    pub nonce: u64,
}

// ── outgoing helpers ─────────────────────────────────────────────────────────

/// The subscribe request, id 1, announcing `agent`.
pub fn subscribe_msg(agent: &str) -> (r: String)
    ensures
        r@ == request_line(Some(1), "mining.subscribe"@, seq![agent@]),
{
    let mut params: Vec<String> = Vec::new();
    params.push(agent.to_owned());
    let r = Request { id: Some(1), method: "mining.subscribe".to_owned(), params };
    assert(texts(r.params@) =~= seq![agent@]);
    r.to_line()
}

/// The authorize request, id 2, logging in as `wallet.worker` with password "x".
pub fn authorize_msg(wallet: &str, worker: &str) -> (r: String)
    ensures
        r@ == request_line(Some(2), "mining.authorize"@, seq![wallet@ + seq!['.'] + worker@, "x"@]),
{
    let mut login: Vec<char> = chars_of(wallet);
    login.push('.');
    append_str(&mut login, worker);
    assert(login@ =~= wallet@ + seq!['.'] + worker@);
    let login_text = string_from(login.as_slice());
    let mut params: Vec<String> = Vec::new();
    params.push(login_text);
    params.push("x".to_owned());
    let r = Request { id: Some(2), method: "mining.authorize".to_owned(), params };
    assert(texts(r.params@) =~= seq![wallet@ + seq!['.'] + worker@, "x"@]);
    r.to_line()
}

/// The submit request with the given id: worker, job id and the nonce as
/// sixteen lower-case hex digits.
pub fn submit_msg(id: u64, worker: &str, job_id: &str, nonce: u64) -> (r: String)
    ensures
        r@ == request_line(Some(id), "mining.submit"@, seq![worker@, job_id@, hex16(nonce)]),
{
    let nonce_hex = hex16_chars(nonce);
    let mut params: Vec<String> = Vec::new();
    params.push(worker.to_owned());
    params.push(job_id.to_owned());
    params.push(string_from(nonce_hex.as_slice()));
    let r = Request { id: Some(id), method: "mining.submit".to_owned(), params };
    assert(texts(r.params@) =~= seq![worker@, job_id@, hex16(nonce)]);
    r.to_line()
}

// ── incoming work ─────────────────────────────────────────────────────────────

/// A job announced by the pool, with the share target and the nonce
/// prefix in force when it came.
#[derive(Debug, Clone)]
pub struct Work {
    pub job_id: String,
    pub pre_pow_hash: [u8; 32],
    pub timestamp: u64,
    pub target: Target,
    /// Nonce bits fixed by the pool's extranonce.
    pub nonce_fixed: u64,
    /// Nonce bits the miner chooses.
    pub nonce_mask: u64,
}

/// Why `hex::decode` refused a text: the cases of `hex::FromHexError`.
#[derive(Debug, Clone, Copy, PartialEq, Eq)]
pub enum HexError {
    /// A byte that is not an ASCII hex digit, as a character, and its
    /// position in the text's bytes.
    InvalidHexCharacter { c: char, index: usize },
    /// An odd number of bytes.
    OddLength,
    /// A length that does not fit a fixed-size output.
    InvalidStringLength,
}

/// `b` is an ASCII hexadecimal digit, either case.
pub open spec fn is_hex_byte(b: u8) -> bool {
    (0x30 <= b <= 0x39) || (0x41 <= b <= 0x46) || (0x61 <= b <= 0x66)
}

/// The error `hex::decode` gives for bytes that do not decode: an odd
/// length first, else the first byte that is not a hex digit.
pub open spec fn hex_error_of(b: Seq<u8>) -> HexError {
    if b.len() % 2 != 0 {
        HexError::OddLength
    } else {
        let i = choose|i: int|
            0 <= i < b.len() && !is_hex_byte(b[i]) && forall|j: int| 0 <= j < i ==> is_hex_byte(b[j]);
        HexError::InvalidHexCharacter { c: b[i] as char, index: i as usize }
    }
}

/// `t` is the text `hex::FromHexError` displays for `e`. For an invalid
/// character the quoted form of the character is given only when it is
/// printable ASCII other than a quote or a backslash: the character between
/// single quotes.
pub open spec fn hex_error_message(e: HexError, t: Seq<char>) -> bool {
    match e {
        HexError::OddLength => t == "Odd number of digits"@,
        HexError::InvalidStringLength => t == "Invalid string length"@,
        HexError::InvalidHexCharacter { c, index } => exists|q: Seq<char>|
            {
                &&& t == "Invalid character "@ + q + " at position "@ + decimal(index as nat)
                &&& (0x20 <= c as u32 && c as u32 <= 0x7e && c != '\'' && c != '\\' && c != '"')
                    ==> q == seq!['\'', c, '\'']
            },
    }
}

/// Why a `mining.notify` message holds no job.
#[derive(Debug)]
pub enum ProtocolError {
    /// The params are not a JSON array.
    ParamsNotArray,
    /// Fewer than two params; holds how many there are.
    TooFewParams(usize),
    /// The first param, the job id, is not a string.
    BadJobId,
    /// The header hash is not hex (after its "0x" prefixes).
    InvalidHex(HexError),
    /// The header hash decodes to other than 40 bytes; holds half the
    /// field's length in bytes, as reported.
    WrongLength(usize),
}

/// The value of an ASCII hexadecimal digit, either case.
pub open spec fn hex_digit_value(c: char) -> Option<nat> {
    let u = c as u32;
    if 0x30 <= u <= 0x39 {
        Some((u - 0x30) as nat)
    } else if 0x61 <= u <= 0x66 {
        Some((u - 0x61 + 10) as nat)
    } else if 0x41 <= u <= 0x46 {
        Some((u - 0x41 + 10) as nat)
    } else {
        None
    }
}

/// `s` is an even number of ASCII hexadecimal digits.
pub open spec fn is_hex_text(s: Seq<char>) -> bool {
    s.len() % 2 == 0 && forall|i: int| 0 <= i < s.len() ==> (#[trigger] hex_digit_value(s[i])) is Some
}

/// The bytes that pairs of hexadecimal digits write, high digit first.
pub open spec fn hex_bytes(s: Seq<char>) -> Seq<u8> {
    Seq::new(
        s.len() / 2,
        |i: int| (hex_digit_value(s[2 * i])->0 * 16 + hex_digit_value(s[2 * i + 1])->0) as u8,
    )
}

/// Calls `hex::decode` on a string. The contract states what the crate's
/// source does: the UTF-8 bytes of `s` decode when they are an even number
/// of ASCII hex digits (either case), each pair giving one byte, high digit
/// first (a non-ASCII character is never a hex digit, so an even character
/// count of hex digits is exactly an even byte count of them). Otherwise the
/// error is `OddLength` for an odd byte count, else `InvalidHexCharacter`
/// for the first byte that is not a hex digit. The error's cases are carried
/// over one for one.
#[verifier::external_body]
fn hex_decode(s: &str) -> (r: Result<Vec<u8>, HexError>)
    ensures
        r is Ok <==> is_hex_text(s@),
        r matches Ok(v) ==> v@ == hex_bytes(s@),
        r matches Err(e) ==> e == hex_error_of(encode_utf8(s@)),
{
    match hex::decode(s) {
        Ok(v) => Ok(v),
        Err(hex::FromHexError::InvalidHexCharacter { c, index }) => Err(
            HexError::InvalidHexCharacter { c, index },
        ),
        Err(hex::FromHexError::OddLength) => Err(HexError::OddLength),
        Err(hex::FromHexError::InvalidStringLength) => Err(HexError::InvalidStringLength),
    }
}

/// Calls `<hex::FromHexError as Display>::fmt` through `to_string`, on the
/// error case `e` stands for. The contract states the crate's three texts;
/// of the `{:?}` form of an invalid character it states only the printable
/// ASCII case.
#[verifier::external_body]
fn hex_error_text(e: &HexError) -> (r: String)
    ensures
        hex_error_message(*e, r@),
{
    let e = match *e {
        HexError::InvalidHexCharacter { c, index } => hex::FromHexError::InvalidHexCharacter {
            c,
            index,
        },
        HexError::OddLength => hex::FromHexError::OddLength,
        HexError::InvalidStringLength => hex::FromHexError::InvalidStringLength,
    };
    e.to_string()
}

/// A header hash field: the text after its leading "0x" prefixes.
pub open spec fn hash_digits(s: Seq<char>) -> Seq<char> {
    trim_start_matches(s, "0x"@)
}

/// A header hash field decodes to 40 bytes: 32 bytes of pre_pow_hash and
/// 8 bytes of little-endian timestamp.
pub open spec fn header_decodes(s: Seq<char>) -> bool {
    is_hex_text(hash_digits(s)) && hash_digits(s).len() == 80
}

/// `e` is the error for a header hash field that does not decode to 40 bytes.
pub open spec fn header_error(s: Seq<char>, e: ProtocolError) -> bool {
    if !is_hex_text(hash_digits(s)) {
        e == ProtocolError::InvalidHex(hex_error_of(encode_utf8(hash_digits(s))))
    } else {
        e == ProtocolError::WrongLength((encode_utf8(s).len() as usize) / 2)
    }
}

/// Decodes a 40-byte header hash from hex, ignoring leading "0x" prefixes.
fn decode_header(s: &str) -> (r: Result<Vec<u8>, ProtocolError>)
    ensures
        header_decodes(s@) ==> (r matches Ok(b) && b@ == hex_bytes(hash_digits(s@))),
        !header_decodes(s@) ==> (r matches Err(e) && header_error(s@, e)),
{
    let chars = chars_of(s);
    let prefix = chars_of("0x");
    let digits = strip_all_prefixes(chars.as_slice(), prefix.as_slice());
    let text = string_from(digits.as_slice());
    match hex_decode(text.as_str()) {
        Err(e) => Err(ProtocolError::InvalidHex(e)),
        Ok(bytes) => {
            if bytes.len() != 40 {
                return Err(ProtocolError::WrongLength(s.len() / 2));
            }
            Ok(bytes)
        },
    }
}

/// The text of a JSON string value, or `default` for any other value.
pub open spec fn str_or(v: JsonValue, default: Seq<char>) -> Seq<char> {
    match v {
        JsonValue::Str(s) => s@,
        _ => default,
    }
}

fn as_str_or<'a>(v: &'a JsonValue, default: &'a str) -> (r: &'a str)
    ensures
        r@ == str_or(*v, default@),
{
    match v {
        JsonValue::Str(s) => s.as_str(),
        _ => default,
    }
}

/// `r` is what `Work::from_notify` gives for `params` when the share
/// target and nonce prefix in force are `target`, `nonce_fixed` and
/// `nonce_mask`: the params are ["jobId", "headerHash"] (further params are
/// not read), the header hash being 32 bytes of pre_pow_hash followed by 8
/// bytes of little-endian timestamp, in hex; or the first reason they hold
/// no job.
pub open spec fn notify_result(
    params: JsonValue,
    target: Target,
    nonce_fixed: u64,
    nonce_mask: u64,
    r: Result<Work, ProtocolError>,
) -> bool {
    match params {
        JsonValue::Array(a) => if a.len() < 2 {
            r == Err::<Work, ProtocolError>(ProtocolError::TooFewParams(a.len() as usize))
        } else {
            match a@[0] {
                JsonValue::Str(job_id) => {
                    let header = str_or(a@[1], ""@);
                    if !header_decodes(header) {
                        r matches Err(e) && header_error(header, e)
                    } else {
                        let bytes = hex_bytes(hash_digits(header));
                        r matches Ok(w) && {
                            &&& w.job_id@ == job_id@
                            &&& w.pre_pow_hash@ == bytes.subrange(0, 32)
                            &&& w.timestamp == le_word(bytes, 32)
                            &&& w.target == target
                            &&& w.nonce_fixed == nonce_fixed
                            &&& w.nonce_mask == nonce_mask
                        }
                    }
                },
                _ => r == Err::<Work, ProtocolError>(ProtocolError::BadJobId),
            }
        },
        _ => r == Err::<Work, ProtocolError>(ProtocolError::ParamsNotArray),
    }
}

/// A job decoded from a notification holds the header hash's first 32
/// bytes as its pre_pow_hash and the number its last 8 bytes write in
/// little-endian order, in full, as its timestamp.
pub proof fn lemma_notify_reads_header(
    params: JsonValue,
    target: Target,
    nonce_fixed: u64,
    nonce_mask: u64,
    w: Work,
)
    requires
        notify_result(params, target, nonce_fixed, nonce_mask, Ok(w)),
    ensures
        params matches JsonValue::Array(a) && a@.len() >= 2 && {
            let header = hex_bytes(hash_digits(str_or(a@[1], ""@)));
            &&& header.len() == 40
            &&& w.timestamp as nat == le_value(header.subrange(32, 40))
            &&& w.pre_pow_hash@ == header.subrange(0, 32)
            &&& a@[0] matches JsonValue::Str(id) && w.job_id@ == id@
        },
{
    if let JsonValue::Array(a) = params {
        let header = hex_bytes(hash_digits(str_or(a@[1], ""@)));
        lemma_le_value_word(header, 32);
    }
}

impl Work {
    /// Decodes a job from `mining.notify` params ["jobId", "headerHash"],
    /// where the header hash is 32 bytes of pre_pow_hash followed by 8 bytes
    /// of little-endian timestamp; the job is mined against the share target
    /// and nonce prefix in force.
    pub fn from_notify(params: &JsonValue, target: Target, nonce_fixed: u64, nonce_mask: u64) -> (r:
        Result<Self, ProtocolError>)
        ensures
            notify_result(*params, target, nonce_fixed, nonce_mask, r),
    {
        let arr = match params {
            JsonValue::Array(a) => a,
            _ => {
                return Err(ProtocolError::ParamsNotArray);
            },
        };
        if arr.len() < 2 {
            return Err(ProtocolError::TooFewParams(arr.len()));
        }
        let job_id = match &arr[0] {
            JsonValue::Str(s) => s.clone(),
            _ => {
                return Err(ProtocolError::BadJobId);
            },
        };
        let bytes = match decode_header(as_str_or(&arr[1], "")) {
            Ok(b) => b,
            Err(e) => {
                return Err(e);
            },
        };
        let mut pre_pow_hash = [0u8; 32];
        for i in 0..32
            invariant
                bytes@.len() == 40,
                forall|k: int| 0 <= k < i ==> pre_pow_hash@[k] == bytes@[k],
        {
            pre_pow_hash[i] = bytes[i];
        }
        assert(pre_pow_hash@ =~= bytes@.subrange(0, 32));
        let timestamp = read_le_word(bytes.as_slice(), 32);
        Ok(Work { job_id, pre_pow_hash, timestamp, target, nonce_fixed, nonce_mask })
    }
}

impl ProtocolError {
    /// The error as the miner reports it.
    pub fn message(&self) -> (r: String)
        ensures
            self is ParamsNotArray ==> r@ == "notify params not array"@,
            self matches ProtocolError::TooFewParams(n) ==> r@ == "notify: expected ≥2 params, got "@
                + decimal(n as nat),
            self is BadJobId ==> r@ == "bad job_id"@,
            self matches ProtocolError::InvalidHex(e) ==> hex_error_message(*e, r@),
            self matches ProtocolError::WrongLength(n) ==> r@ == "expected 40-byte header hash, got "@
                + decimal(n as nat) + " bytes"@,
    {
        match self {
            ProtocolError::ParamsNotArray => "notify params not array".to_owned(),
            ProtocolError::TooFewParams(n) => {
                let mut v = chars_of("notify: expected ≥2 params, got ");
                let d = decimal_chars(*n as u64);
                append_chars(&mut v, &d);
                string_from(v.as_slice())
            },
            ProtocolError::BadJobId => "bad job_id".to_owned(),
            ProtocolError::InvalidHex(e) => hex_error_text(e),
            ProtocolError::WrongLength(n) => {
                let mut v = chars_of("expected 40-byte header hash, got ");
                let d = decimal_chars(*n as u64);
                append_chars(&mut v, &d);
                append_str(&mut v, " bytes");
                string_from(v.as_slice())
            },
        }
    }
}

// ── extranonce ───────────────────────────────────────────────────────────────

/// The number that bytes write in big-endian order.
pub open spec fn be_value(b: Seq<u8>) -> nat
    decreases b.len(),
{
    if b.len() == 0 {
        0
    } else {
        be_value(b.drop_last()) * 256 + b.last() as nat
    }
}

proof fn lemma_be_value_bound(b: Seq<u8>)
    ensures
        be_value(b) < pow256(b.len()),
    decreases b.len(),
{
    if b.len() > 0 {
        lemma_be_value_bound(b.drop_last());
        let x = be_value(b.drop_last());
        let p = pow256((b.len() - 1) as nat);
        assert(x * 256 + 255 < p * 256) by (nonlinear_arith)
            requires
                x < p,
        ;
    }
}

proof fn lemma_pow256_mono(i: nat, j: nat)
    requires
        i <= j,
    ensures
        pow256(i) <= pow256(j),
    decreases j,
{
    if i < j {
        lemma_pow256_mono(i, (j - 1) as nat);
    }
}

/// Why a `mining.set_extranonce` message is refused.
#[derive(Debug)]
pub enum ExtranonceError {
    /// The prefix is not hex.
    InvalidHex(HexError),
    /// The prefix leaves no nonce byte to the miner; holds its length in bytes.
    TooLong(usize),
    /// The announced miner nonce size and the prefix do not add up to 8 bytes.
    SizeMismatch { prefix_bytes: usize, nonce_size: u64 },
}

impl ExtranonceError {
    /// The error as the miner reports it.
    pub fn message(&self) -> (r: String)
        ensures
            self matches ExtranonceError::InvalidHex(e) ==> hex_error_message(*e, r@),
            self matches ExtranonceError::TooLong(n) ==> r@ == "extranonce of "@ + decimal(n as nat)
                + " bytes leaves no nonce bytes"@,
            self matches ExtranonceError::SizeMismatch { prefix_bytes, nonce_size } ==> r@
                == "extranonce of "@ + decimal(prefix_bytes as nat) + " bytes and nonce size "@
                + decimal(nonce_size as nat) + " do not make 8 bytes"@,
    {
        match self {
            ExtranonceError::InvalidHex(e) => hex_error_text(e),
            ExtranonceError::TooLong(n) => {
                let mut v = chars_of("extranonce of ");
                let d = decimal_chars(*n as u64);
                append_chars(&mut v, &d);
                append_str(&mut v, " bytes leaves no nonce bytes");
                string_from(v.as_slice())
            },
            ExtranonceError::SizeMismatch { prefix_bytes, nonce_size } => {
                let mut v = chars_of("extranonce of ");
                let d = decimal_chars(*prefix_bytes as u64);
                append_chars(&mut v, &d);
                append_str(&mut v, " bytes and nonce size ");
                let k = decimal_chars(*nonce_size);
                append_chars(&mut v, &k);
                append_str(&mut v, " do not make 8 bytes");
                string_from(v.as_slice())
            },
        }
    }
}

/// The fixed nonce bits and the free-bit mask that an extranonce prefix of
/// `len` bytes (fewer than 8) with big-endian value `v` gives: the prefix
/// fills the top `len` bytes of the nonce, the miner chooses the rest.
pub open spec fn prefix_bits(v: nat, len: nat) -> (u64, u64) {
    if len == 0 {
        (0, 0xFFFF_FFFF_FFFF_FFFF)
    } else {
        let shift = (64 - 8 * len) as u64;
        ((v as u64) << shift, ((1u64 << shift) - 1) as u64)
    }
}

/// `r` is what `extranonce_to_mask` gives for a hex prefix and an optional
/// miner nonce size in bytes.
pub open spec fn extranonce_result(
    prefix: Seq<char>,
    nonce_size: Option<u64>,
    r: Result<(u64, u64), ExtranonceError>,
) -> bool {
    if !is_hex_text(prefix) {
        r matches Err(e) && e == ExtranonceError::InvalidHex(hex_error_of(encode_utf8(prefix)))
    } else {
        let b = hex_bytes(prefix);
        if b.len() >= 8 {
            r matches Err(e) && e == ExtranonceError::TooLong(b.len() as usize)
        } else if nonce_size is Some && nonce_size->0 + b.len() != 8 {
            r matches Err(e) && e == (ExtranonceError::SizeMismatch {
                prefix_bytes: b.len() as usize,
                nonce_size: nonce_size->0,
            })
        } else {
            r == Ok::<(u64, u64), ExtranonceError>(prefix_bits(be_value(b), b.len()))
        }
    }
}

/// Turns a pool's extranonce (a hex prefix, and optionally the number of
/// nonce bytes left to the miner) into the fixed nonce bits and the mask of
/// the bits the miner chooses.
pub fn extranonce_to_mask(prefix: &str, nonce_size: Option<u64>) -> (r: Result<
    (u64, u64),
    ExtranonceError,
>)
    ensures
        extranonce_result(prefix@, nonce_size, r),
{
    let bytes = match hex_decode(prefix) {
        Err(e) => {
            return Err(ExtranonceError::InvalidHex(e));
        },
        Ok(b) => b,
    };
    let len = bytes.len();
    if len >= 8 {
        return Err(ExtranonceError::TooLong(len));
    }
    if let Some(k) = nonce_size {
        if k > 8 || k + (len as u64) != 8 {
            return Err(ExtranonceError::SizeMismatch { prefix_bytes: len, nonce_size: k });
        }
    }
    if len == 0 {
        return Ok((0, 0xFFFF_FFFF_FFFF_FFFF));
    }
    let ghost b = bytes@;
    let mut acc: u64 = 0;
    let mut i: usize = 0;
    proof {
        reveal_with_fuel(pow256, 8);
        assert(b.take(0) =~= Seq::<u8>::empty());
    }
    while i < len
        invariant
            len == b.len() < 8,
            bytes@ == b,
            i <= len,
            acc as nat == be_value(b.take(i as int)),
        decreases len - i,
    {
        proof {
            lemma_be_value_bound(b.take(i as int));
            lemma_pow256_mono(i as nat, 6);
            reveal_with_fuel(pow256, 7);
            assert(b.take(i + 1).drop_last() =~= b.take(i as int));
        }
        acc = acc * 256 + bytes[i] as u64;
        i = i + 1;
    }
    assert(b.take(len as int) =~= b);
    let shift: u64 = 64 - 8 * (len as u64);
    let fixed = acc << shift;
    assert(1u64 << shift >= 1) by (bit_vector)
        requires
            shift < 64,
    ;
    let mask = (1u64 << shift) - 1;
    Ok((fixed, mask))
}

/// Every nonce the miner sends after an extranonce keeps the pool's prefix
/// bits unchanged and takes the miner's bits from its own counter.
pub proof fn lemma_prefix_kept(prefix: Seq<char>, nonce_size: Option<u64>, fixed: u64, mask: u64, n: u64)
    requires
        extranonce_result(prefix, nonce_size, Ok((fixed, mask))),
    ensures
        fixed & mask == 0,
        prefixed_nonce(fixed, mask, n) & !mask == fixed,
        prefixed_nonce(fixed, mask, n) & mask == n & mask,
{
    let b = hex_bytes(prefix);
    if b.len() == 0 {
        assert(fixed & mask == 0 && ((n & mask) | fixed) & !mask == fixed && ((n & mask) | fixed)
            & mask == n & mask) by (bit_vector)
            requires
                fixed == 0,
                mask == 0xFFFF_FFFF_FFFF_FFFFu64,
        ;
    } else {
        let shift = (64 - 8 * b.len()) as u64;
        let v = be_value(b) as u64;
        assert(fixed & mask == 0 && ((n & mask) | fixed) & !mask == fixed && ((n & mask) | fixed)
            & mask == n & mask) by (bit_vector)
            requires
                shift < 64,
                fixed == v << shift,
                mask == ((1u64 << shift) - 1) as u64,
        ;
    }
}

// ── what the miner does with a pool message ──────────────────────────────────

/// The miner's response to one message from the pool.
#[derive(Debug)]
pub enum ServerAction {
    /// Nothing to do.
    Ignore,
    /// Mine this job from now on.
    NewWork(Work),
    /// A notification held no job; report why.
    BadNotify(ProtocolError),
    /// The pool set the share difficulty; holds the number as JSON text.
    SetDifficulty(String),
    /// The pool set the nonce prefix; holds the prefix text and the fixed
    /// bits and free-bit mask it gives.
    SetExtranonce { prefix: String, fixed: u64, mask: u64 },
    /// An extranonce message could not be used; report why.
    BadExtranonce(ExtranonceError),
    /// The pool accepted a submitted share.
    ShareAccepted,
    /// The pool rejected a submitted share; holds the reply's error as
    /// compact JSON text, the reason reported.
    ShareRejected(String),
}

/// The first element of a JSON array, if the value is a non-empty array.
pub open spec fn first_item(v: JsonValue) -> Option<JsonValue> {
    match v {
        JsonValue::Array(a) => if a.len() > 0 {
            Some(a@[0])
        } else {
            None
        },
        _ => None,
    }
}

/// The unsigned integer a JSON value holds, if any.
pub open spec fn as_unsigned(v: JsonValue) -> Option<u64> {
    match v {
        JsonValue::Number(n) => n.unsigned,
        _ => None,
    }
}

/// `r` is the decision for a message with a method.
pub open spec fn method_action(
    m: Seq<char>,
    params: Option<JsonValue>,
    target: Target,
    nonce_fixed: u64,
    nonce_mask: u64,
    r: ServerAction,
) -> bool {
    if m == "mining.notify"@ {
        match params {
            Some(p) => {
                &&& r matches ServerAction::NewWork(w) ==> notify_result(
                    p,
                    target,
                    nonce_fixed,
                    nonce_mask,
                    Ok(w),
                )
                &&& r matches ServerAction::BadNotify(e) ==> notify_result(
                    p,
                    target,
                    nonce_fixed,
                    nonce_mask,
                    Err(e),
                )
                &&& (r is NewWork || r is BadNotify)
            },
            None => r is Ignore,
        }
    } else if m == "mining.set_difficulty"@ {
        match params {
            Some(p) => match first_item(p) {
                Some(JsonValue::Number(n)) => r matches ServerAction::SetDifficulty(t) && t@
                    == n.text@,
                _ => r is Ignore,
            },
            None => r is Ignore,
        }
    } else if m == "mining.set_extranonce"@ || m == "set_extranonce"@ {
        match params {
            Some(JsonValue::Array(a)) => {
                let prefix = if a.len() > 0 {
                    str_or(a@[0], ""@)
                } else {
                    ""@
                };
                let size = if a.len() > 1 {
                    as_unsigned(a@[1])
                } else {
                    None
                };
                &&& r matches ServerAction::SetExtranonce { prefix: p, fixed, mask } ==> p@
                    == prefix && extranonce_result(prefix, size, Ok((fixed, mask)))
                &&& r matches ServerAction::BadExtranonce(e) ==> extranonce_result(
                    prefix,
                    size,
                    Err(e),
                )
                &&& (r is SetExtranonce || r is BadExtranonce)
            },
            _ => r is Ignore,
        }
    } else {
        r is Ignore
    }
}

fn first_number<'a>(v: &'a JsonValue) -> (r: Option<&'a JsonNumber>)
    ensures
        match first_item(*v) {
            Some(JsonValue::Number(n)) => r == Some(&n),
            _ => r is None,
        },
{
    match v {
        JsonValue::Array(a) => {
            if a.len() > 0 {
                match &a[0] {
                    JsonValue::Number(n) => Some(n),
                    _ => None,
                }
            } else {
                None
            }
        },
        _ => None,
    }
}

fn number_value(v: &JsonValue) -> (r: Option<u64>)
    ensures
        r == as_unsigned(*v),
{
    match v {
        JsonValue::Number(n) => n.unsigned,
        _ => None,
    }
}

/// Decides what a message from the pool asks of the miner, given the share
/// target and nonce prefix in force. A `mining.notify` announces a job;
/// `mining.set_difficulty` carries the new difficulty; `mining.set_extranonce`
/// (or `set_extranonce`) carries a new nonce prefix. Replies to submissions
/// (ids from 10 up) with a non-null error are rejections, reported with the
/// error's compact JSON text, and those whose
/// result is `true` are acceptances; everything else is ignored.
pub fn handle_server_msg(resp: &Response, target: Target, nonce_fixed: u64, nonce_mask: u64) -> (r:
    ServerAction)
    ensures
        match resp.method {
            Some(m) => method_action(m@, resp.params, target, nonce_fixed, nonce_mask, r),
            None => if resp.id matches Some(id) && id >= 10 {
                if resp.error is Some && !(resp.error->0 is Null) {
                    r matches ServerAction::ShareRejected(m) && m@ == json_text(resp.error->0)
                } else if resp.result matches Some(JsonValue::Bool(b)) && b {
                    r is ShareAccepted
                } else {
                    r is Ignore
                }
            } else {
                r is Ignore
            },
        },
{
    if let Some(method) = &resp.method {
        let m = method.as_str();
        if same_text(m, "mining.notify") {
            if let Some(params) = &resp.params {
                return match Work::from_notify(params, target, nonce_fixed, nonce_mask) {
                    Ok(work) => ServerAction::NewWork(work),
                    Err(e) => ServerAction::BadNotify(e),
                };
            }
            return ServerAction::Ignore;
        }
        if same_text(m, "mining.set_difficulty") {
            if let Some(params) = &resp.params {
                if let Some(n) = first_number(params) {
                    return ServerAction::SetDifficulty(n.text.clone());
                }
            }
            return ServerAction::Ignore;
        }
        if same_text(m, "mining.set_extranonce") || same_text(m, "set_extranonce") {
            if let Some(JsonValue::Array(a)) = &resp.params {
                let prefix: &str = if a.len() > 0 {
                    as_str_or(&a[0], "")
                } else {
                    ""
                };
                let size = if a.len() > 1 {
                    number_value(&a[1])
                } else {
                    None
                };
                return match extranonce_to_mask(prefix, size) {
                    Ok((fixed, mask)) => ServerAction::SetExtranonce {
                        prefix: prefix.to_owned(),
                        fixed,
                        mask,
                    },
                    Err(e) => ServerAction::BadExtranonce(e),
                };
            }
            return ServerAction::Ignore;
        }
        return ServerAction::Ignore;
    }
    if let Some(id) = resp.id {
        if id >= 10 {
            if let Some(error) = &resp.error {
                if !matches!(error, JsonValue::Null) {
                    return ServerAction::ShareRejected(json_render(error));
                }
            }
            if let Some(JsonValue::Bool(true)) = &resp.result {
                return ServerAction::ShareAccepted;
            }
        }
    }
    ServerAction::Ignore
}

} // verus!

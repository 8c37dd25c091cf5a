//! The session record and its text format: one `key=value` line per field,
//! with the free-text fields hex-encoded so that any text survives.
use vstd::prelude::*;
use vstd::utf8::{decode_utf8, encode_scalar, encode_utf8, valid_utf8};

use super::lines::{field_value, find_field, key_value, lemma_lines_cons, lines_of, split_lines, strip_cr};
use super::registry::{RegistryError, RegistryErrorView};
use crate::text::{
    chars_of, decimal, is_digit, lemma_decimal_digits, lemma_parse_decimal, owned, parse_unsigned, parse_unsigned_chars, push_char, push_decimal,
    push_str, string_from_chars, string_from_utf8, utf8_bytes,
};

verus! {

broadcast use vstd::string::group_string_axioms;

/// One running session, as the registry records it.
#[derive(Debug, Clone, PartialEq, Eq)]
pub struct SessionRecord {
    pub id: String,
    pub application: String,
    pub runtime: String,
    pub pid: u32,
    pub process_start_ticks: u64,
    pub started_unix_seconds: u64,
}

pub struct SessionRecordView {
    pub id: Seq<char>,
    pub application: Seq<char>,
    pub runtime: Seq<char>,
    pub pid: u32,
    pub process_start_ticks: u64,
    pub started_unix_seconds: u64,
}

impl View for SessionRecord {
    type V = SessionRecordView;

    open spec fn view(&self) -> SessionRecordView {
        SessionRecordView {
            id: self.id@,
            application: self.application@,
            runtime: self.runtime@,
            pid: self.pid,
            process_start_ticks: self.process_start_ticks,
            started_unix_seconds: self.started_unix_seconds,
        }
    }
}

/// Lower-case hexadecimal digit for `0 <= n < 16`.
pub open spec fn hex_digit(n: int) -> char {
    seq!['0', '1', '2', '3', '4', '5', '6', '7', '8', '9', 'a', 'b', 'c', 'd', 'e', 'f'][n]
}

/// Two lower-case hex digits per byte, high nibble first.
pub open spec fn hex_text(bytes: Seq<u8>) -> Seq<char> {
    Seq::new(
        2 * bytes.len(),
        |i: int|
            if i % 2 == 0 {
                hex_digit(bytes[i / 2] as int / 16)
            } else {
                hex_digit(bytes[i / 2] as int % 16)
            },
    )
}

/// Value of a hex digit byte, in either letter case.
pub open spec fn hex_nibble_value(byte: u8) -> Option<u8> {
    if 0x30 <= byte <= 0x39 {
        Some((byte - 0x30) as u8)
    } else if 0x61 <= byte <= 0x66 {
        Some((byte - 0x61 + 10) as u8)
    } else if 0x41 <= byte <= 0x46 {
        Some((byte - 0x41 + 10) as u8)
    } else {
        None
    }
}

/// Decoding of hex text given as bytes; the error is the message of the
/// `InvalidRecord` error that rejects it.
pub open spec fn hex_decoded(bytes: Seq<u8>) -> Result<Seq<u8>, Seq<char>> {
    if bytes.len() % 2 != 0 {
        Err("odd hex field length"@)
    } else if exists|i: int| 0 <= i < bytes.len() && (#[trigger] hex_nibble_value(bytes[i])) is None {
        Err("invalid hex field"@)
    } else {
        Ok(
            Seq::new(
                bytes.len() / 2,
                |i: int|
                    (hex_nibble_value(bytes[2 * i])->0 * 16 + hex_nibble_value(
                        bytes[2 * i + 1],
                    )->0) as u8,
            ),
        )
    }
}

/// One line of the format.
pub open spec fn record_line(key: Seq<char>, value: Seq<char>) -> Seq<char> {
    key + seq!['='] + value + seq!['\n']
}

/// The text that records `r`.
pub open spec fn record_text(r: SessionRecordView) -> Seq<char> {
    record_line("version"@, "1"@) + record_line("id"@, r.id) + record_line(
        "pid"@,
        decimal(r.pid as nat),
    ) + record_line("process_start_ticks"@, decimal(r.process_start_ticks as nat))
        + record_line("started_unix_seconds"@, decimal(r.started_unix_seconds as nat))
        + record_line("runtime"@, hex_text(encode_utf8(r.runtime))) + record_line(
        "application"@,
        hex_text(encode_utf8(r.application)),
    )
}

pub open spec fn missing_message(name: Seq<char>) -> Seq<char> {
    "missing '"@ + name + seq!['\'']
}

pub open spec fn invalid_message(name: Seq<char>) -> Seq<char> {
    "invalid '"@ + name + seq!['\'']
}

/// A `u64` field: present and a valid unsigned decimal.
pub open spec fn number_field(lines: Seq<Seq<char>>, name: Seq<char>) -> Result<nat, Seq<char>> {
    match field_value(lines, name) {
        None => Err(missing_message(name)),
        Some(text) => match parse_unsigned(text, u64::MAX as nat) {
            None => Err(invalid_message(name)),
            Some(v) => Ok(v),
        },
    }
}

/// A hex-encoded UTF-8 text field.
pub open spec fn text_field(lines: Seq<Seq<char>>, name: Seq<char>) -> Result<Seq<char>, Seq<char>> {
    match field_value(lines, name) {
        None => Err(missing_message(name)),
        Some(text) => match hex_decoded(encode_utf8(text)) {
            Err(message) => Err(message),
            Ok(bytes) => if valid_utf8(bytes) {
                Ok(decode_utf8(bytes))
            } else {
                Err(name + " is not UTF-8"@)
            },
        },
    }
}

/// Reading a record back: the fields are checked in the order version,
/// pid, id, application, runtime, process_start_ticks,
/// started_unix_seconds; the first failure gives the message of the
/// `InvalidRecord` error.
pub open spec fn parsed_record(contents: Seq<char>) -> Result<SessionRecordView, Seq<char>> {
    let lines = lines_of(contents);
    match field_value(lines, "version"@) {
        None => Err(missing_message("version"@)),
        Some(version) => if version != "1"@ {
            Err("unsupported version"@)
        } else {
            match number_field(lines, "pid"@) {
                Err(m) => Err(m),
                Ok(pid) => if pid > u32::MAX {
                    Err("pid does not fit u32"@)
                } else {
                    match field_value(lines, "id"@) {
                        None => Err(missing_message("id"@)),
                        Some(id) => match text_field(lines, "application"@) {
                            Err(m) => Err(m),
                            Ok(application) => match text_field(lines, "runtime"@) {
                                Err(m) => Err(m),
                                Ok(runtime) => match number_field(lines, "process_start_ticks"@) {
                                    Err(m) => Err(m),
                                    Ok(ticks) => match number_field(
                                        lines,
                                        "started_unix_seconds"@,
                                    ) {
                                        Err(m) => Err(m),
                                        Ok(seconds) => Ok(
                                            SessionRecordView {
                                                id,
                                                application,
                                                runtime,
                                                pid: pid as u32,
                                                process_start_ticks: ticks as u64,
                                                started_unix_seconds: seconds as u64,
                                            },
                                        ),
                                    },
                                },
                            },
                        },
                    }
                }
            }
        }
    }
}

fn hex_char(n: u8) -> (c: char)
    requires
        n < 16,
    ensures
        c == hex_digit(n as int),
{
    if n == 0 {
        '0'
    } else if n == 1 {
        '1'
    } else if n == 2 {
        '2'
    } else if n == 3 {
        '3'
    } else if n == 4 {
        '4'
    } else if n == 5 {
        '5'
    } else if n == 6 {
        '6'
    } else if n == 7 {
        '7'
    } else if n == 8 {
        '8'
    } else if n == 9 {
        '9'
    } else if n == 10 {
        'a'
    } else if n == 11 {
        'b'
    } else if n == 12 {
        'c'
    } else if n == 13 {
        'd'
    } else if n == 14 {
        'e'
    } else {
        'f'
    }
}

/// Lower-case hex encoding of `bytes`.
pub fn hex_encode(bytes: &[u8]) -> (encoded: String)
    ensures
        encoded@ == hex_text(bytes@),
{
    let mut encoded = String::new();
    for i in 0..bytes.len()
        invariant
            encoded@.len() == 2 * i,
            forall|k: int| 0 <= k < 2 * i ==> encoded@[k] == hex_text(bytes@)[k],
    {
        let byte = bytes[i];
        let high = hex_char(byte / 16);
        let low = hex_char(byte % 16);
        let ghost before = encoded@;
        push_char(&mut encoded, high);
        push_char(&mut encoded, low);
        assert forall|k: int| 0 <= k < 2 * (i + 1) implies encoded@[k] == hex_text(bytes@)[k] by {
            if k < 2 * i {
                assert(encoded@[k] == before[k]);
            }
        }
    }
    assert(encoded@ =~= hex_text(bytes@));
    encoded
}

fn hex_nibble(byte: u8) -> (r: Result<u8, RegistryError>)
    ensures
        match r {
            Ok(v) => hex_nibble_value(byte) == Some(v),
            Err(e) => hex_nibble_value(byte) is None && e@ == RegistryErrorView::InvalidRecord(
                "invalid hex field"@,
            ),
        },
{
    if 0x30 <= byte && byte <= 0x39 {
        Ok(byte - 0x30)
    } else if 0x61 <= byte && byte <= 0x66 {
        Ok(byte - 0x61 + 10)
    } else if 0x41 <= byte && byte <= 0x46 {
        Ok(byte - 0x41 + 10)
    } else {
        Err(RegistryError::InvalidRecord(owned("invalid hex field")))
    }
}

/// Decodes hex text of either letter case.
pub fn hex_decode(encoded: &str) -> (r: Result<Vec<u8>, RegistryError>)
    ensures
        match r {
            Ok(bytes) => hex_decoded(encode_utf8(encoded@)) == Ok::<Seq<u8>, Seq<char>>(bytes@),
            Err(e) => hex_decoded(encode_utf8(encoded@)) matches Err(m)
                && e@ == RegistryErrorView::InvalidRecord(m),
        },
{
    let input = utf8_bytes(encoded);
    let ghost b = input@;
    if input.len() % 2 != 0 {
        return Err(RegistryError::InvalidRecord(owned("odd hex field length")));
    }
    let mut decoded: Vec<u8> = Vec::new();
    let mut i: usize = 0;
    while i < input.len() / 2
        invariant
            b == input@,
            b == encode_utf8(encoded@),
            b.len() % 2 == 0,
            i <= b.len() / 2,
            forall|k: int| 0 <= k < 2 * i ==> (#[trigger] hex_nibble_value(b[k])) is Some,
            decoded@.len() == i,
            forall|k: int|
                0 <= k < i ==> decoded@[k] == (hex_nibble_value(b[2 * k])->0 * 16
                    + hex_nibble_value(b[2 * k + 1])->0) as u8,
        decreases input.len() / 2 - i,
    {
        let high = match hex_nibble(input[2 * i]) {
            Ok(v) => v,
            Err(e) => {
                assert(hex_nibble_value(b[2 * i as int]) is None);
                return Err(e);
            },
        };
        let low = match hex_nibble(input[2 * i + 1]) {
            Ok(v) => v,
            Err(e) => {
                assert(hex_nibble_value(b[2 * i + 1]) is None);
                return Err(e);
            },
        };
        decoded.push(high * 16 + low);
        i = i + 1;
    }
    assert forall|k: int| 0 <= k < b.len() implies (#[trigger] hex_nibble_value(b[k])) is Some by {
    }
    assert(decoded@ =~= Seq::new(
        b.len() / 2,
        |k: int| (hex_nibble_value(b[2 * k])->0 * 16 + hex_nibble_value(b[2 * k + 1])->0) as u8,
    ));
    Ok(decoded)
}

fn push_record_line(text: &mut String, key: &str, value: &str)
    ensures
        final(text)@ == old(text)@ + record_line(key@, value@),
{
    push_str(text, key);
    push_char(text, '=');
    push_str(text, value);
    push_char(text, '\n');
}

fn push_number_line(text: &mut String, key: &str, value: u64)
    ensures
        final(text)@ == old(text)@ + record_line(key@, decimal(value as nat)),
{
    push_str(text, key);
    push_char(text, '=');
    push_decimal(text, value);
    push_char(text, '\n');
}

/// The text that records `record`.
pub fn serialize(record: &SessionRecord) -> (text: String)
    ensures
        text@ == record_text(record@),
{
    let mut text = String::new();
    push_record_line(&mut text, "version", "1");
    push_record_line(&mut text, "id", record.id.as_str());
    push_number_line(&mut text, "pid", record.pid as u64);
    push_number_line(&mut text, "process_start_ticks", record.process_start_ticks);
    push_number_line(&mut text, "started_unix_seconds", record.started_unix_seconds);
    let runtime = hex_encode(utf8_bytes(record.runtime.as_str()).as_slice());
    push_record_line(&mut text, "runtime", runtime.as_str());
    let application = hex_encode(utf8_bytes(record.application.as_str()).as_slice());
    push_record_line(&mut text, "application", application.as_str());
    assert(text@ =~= record_text(record@));
    text
}


fn quoted_message(prefix: &str, name: &str) -> (m: String)
    ensures
        m@ == prefix@ + name@ + seq!['\''],
{
    let mut m = owned(prefix);
    push_str(&mut m, name);
    push_char(&mut m, '\'');
    m
}

fn number_field_exec(lines: &Vec<Vec<char>>, name: &str) -> (r: Result<u64, RegistryError>)
    ensures
        match r {
            Ok(v) => number_field(lines.deep_view(), name@) == Ok::<nat, Seq<char>>(v as nat),
            Err(e) => number_field(lines.deep_view(), name@) matches Err(m)
                && e@ == RegistryErrorView::InvalidRecord(m),
        },
{
    let key = chars_of(name);
    match find_field(lines, &key) {
        None => Err(RegistryError::InvalidRecord(quoted_message("missing '", name))),
        Some(text) => match parse_unsigned_chars(&text, u64::MAX) {
            None => Err(RegistryError::InvalidRecord(quoted_message("invalid '", name))),
            Some(v) => Ok(v),
        },
    }
}

fn text_field_exec(lines: &Vec<Vec<char>>, name: &str) -> (r: Result<String, RegistryError>)
    ensures
        match r {
            Ok(v) => text_field(lines.deep_view(), name@) == Ok::<Seq<char>, Seq<char>>(v@),
            Err(e) => text_field(lines.deep_view(), name@) matches Err(m)
                && e@ == RegistryErrorView::InvalidRecord(m),
        },
{
    let key = chars_of(name);
    match find_field(lines, &key) {
        None => Err(RegistryError::InvalidRecord(quoted_message("missing '", name))),
        Some(text) => {
            let encoded = string_from_chars(text.as_slice());
            let bytes = match hex_decode(encoded.as_str()) {
                Ok(bytes) => bytes,
                Err(e) => {
                    return Err(e);
                },
            };
            match string_from_utf8(bytes) {
                Some(value) => Ok(value),
                None => {
                    let mut m = owned(name);
                    push_str(&mut m, " is not UTF-8");
                    Err(RegistryError::InvalidRecord(m))
                },
            }
        },
    }
}

/// Reads a record back from its text.
pub fn parse_record(contents: &str) -> (r: Result<SessionRecord, RegistryError>)
    ensures
        match r {
            Ok(record) => parsed_record(contents@) == Ok::<SessionRecordView, Seq<char>>(record@),
            Err(e) => parsed_record(contents@) matches Err(m) && e@
                == RegistryErrorView::InvalidRecord(m),
        },
{
    let chars = chars_of(contents);
    let lines = split_lines(&chars);
    let version = match find_field(&lines, &chars_of("version")) {
        None => {
            return Err(RegistryError::InvalidRecord(quoted_message("missing '", "version")));
        },
        Some(version) => version,
    };
    proof {
        reveal_strlit("1");
    }
    if !(version.len() == 1 && version[0] == '1') {
        assert(version@ != "1"@) by {
            if version@ == "1"@ {
                assert(version@[0] == '1');
            }
        }
        return Err(RegistryError::InvalidRecord(owned("unsupported version")));
    }
    assert(version@ =~= "1"@);
    let pid = match number_field_exec(&lines, "pid") {
        Ok(pid) => pid,
        Err(e) => {
            return Err(e);
        },
    };
    if pid > 0xffff_ffff {
        return Err(RegistryError::InvalidRecord(owned("pid does not fit u32")));
    }
    let id = match find_field(&lines, &chars_of("id")) {
        None => {
            return Err(RegistryError::InvalidRecord(quoted_message("missing '", "id")));
        },
        Some(id) => string_from_chars(id.as_slice()),
    };
    let application = match text_field_exec(&lines, "application") {
        Ok(v) => v,
        Err(e) => {
            return Err(e);
        },
    };
    let runtime = match text_field_exec(&lines, "runtime") {
        Ok(v) => v,
        Err(e) => {
            return Err(e);
        },
    };
    let process_start_ticks = match number_field_exec(&lines, "process_start_ticks") {
        Ok(v) => v,
        Err(e) => {
            return Err(e);
        },
    };
    let started_unix_seconds = match number_field_exec(&lines, "started_unix_seconds") {
        Ok(v) => v,
        Err(e) => {
            return Err(e);
        },
    };
    Ok(
        SessionRecord {
            id,
            application,
            runtime,
            pid: pid as u32,
            process_start_ticks,
            started_unix_seconds,
        },
    )
}


/// The byte of an ASCII character.
pub open spec fn ascii_byte(c: char) -> u8 {
    (c as u32) as u8
}

proof fn lemma_hex_digit(n: int)
    requires
        0 <= n < 16,
    ensures
        (hex_digit(n) as u32) < 0x80,
        hex_nibble_value(ascii_byte(hex_digit(n))) == Some(n as u8),
        hex_digit(n) != '\n',
        hex_digit(n) != '\r',
{
}

proof fn lemma_encode_ascii(cs: Seq<char>)
    requires
        forall|i: int| 0 <= i < cs.len() ==> (cs[i] as u32) < 0x80,
    ensures
        encode_utf8(cs) == cs.map_values(|c: char| ascii_byte(c)),
    decreases cs.len(),
{
    if cs.len() > 0 {
        let rest = cs.drop_first();
        assert forall|i: int| 0 <= i < rest.len() implies (rest[i] as u32) < 0x80 by {
            assert(rest[i] == cs[i + 1]);
        }
        lemma_encode_ascii(rest);
        let c = cs[0] as u32;
        assert((c & 0x7f) == c) by (bit_vector)
            requires
                c < 0x80,
        ;
        assert(encode_scalar(c) =~= seq![ascii_byte(cs[0])]);
        assert(encode_utf8(cs) =~= cs.map_values(|c: char| ascii_byte(c)));
    }
}

/// Hex decoding undoes hex encoding.
pub proof fn lemma_hex_round_trip(bytes: Seq<u8>)
    ensures
        hex_decoded(encode_utf8(hex_text(bytes))) == Ok::<Seq<u8>, Seq<char>>(bytes),
{
    let h = hex_text(bytes);
    assert forall|i: int| 0 <= i < h.len() implies (h[i] as u32) < 0x80 && #[trigger] h[i] != '\n' && h[i] != '\r' && hex_nibble_value(ascii_byte(h[i])) == Some(
        (if i % 2 == 0 { bytes[i / 2] / 16 } else { bytes[i / 2] % 16 }) as u8) by {
        if i % 2 == 0 {
            lemma_hex_digit(bytes[i / 2] as int / 16);
        } else {
            lemma_hex_digit(bytes[i / 2] as int % 16);
        }
    }
    lemma_encode_ascii(h);
    let e = encode_utf8(h);
    assert(e.len() == 2 * bytes.len());
    assert forall|i: int| 0 <= i < e.len() implies (#[trigger] hex_nibble_value(e[i])) is Some by {
        assert(e[i] == ascii_byte(h[i]));
    }
    let decoded = Seq::new(
        e.len() / 2,
        |i: int| (hex_nibble_value(e[2 * i])->0 * 16 + hex_nibble_value(e[2 * i + 1])->0) as u8,
    );
    assert forall|k: int| 0 <= k < bytes.len() implies decoded[k] == bytes[k] by {
        assert(e[2 * k] == ascii_byte(h[2 * k]));
        assert(e[2 * k + 1] == ascii_byte(h[2 * k + 1]));
        assert((2 * k) % 2 == 0 && (2 * k) / 2 == k);
        assert((2 * k + 1) % 2 == 1 && (2 * k + 1) / 2 == k);
        let b = bytes[k];
        assert((b / 16) * 16 + b % 16 == b);
    }
    assert(decoded =~= bytes);
}

proof fn lemma_key_value_own(key: Seq<char>, value: Seq<char>)
    ensures
        key_value(key + seq!['='] + value, key) == Some(value),
{
    let line = key + seq!['='] + value;
    assert(line.take(key.len() as int) =~= key);
    assert(line.skip(key.len() as int + 1) =~= value);
}

proof fn lemma_key_value_other(key: Seq<char>, value: Seq<char>, other: Seq<char>, j: int)
    requires
        0 <= j < key.len(),
        j < other.len(),
        key[j] != other[j],
    ensures
        key_value(key + seq!['='] + value, other) is None,
{
    let line = key + seq!['='] + value;
    if line.len() > other.len() && line.take(other.len() as int) == other {
        assert(line.take(other.len() as int)[j] == line[j]);
    }
}

proof fn lemma_field_found(lines: Seq<Seq<char>>, name: Seq<char>, n: int)
    requires
        0 <= n < lines.len(),
        forall|i: int| 0 <= i < n ==> key_value(#[trigger] lines[i], name) is None,
        key_value(lines[n], name) is Some,
    ensures
        field_value(lines, name) == key_value(lines[n], name),
    decreases n,
{
    if n > 0 {
        let rest = lines.drop_first();
        assert forall|i: int| 0 <= i < n - 1 implies key_value(#[trigger] rest[i], name) is None by {
            assert(rest[i] == lines[i + 1]);
        }
        lemma_field_found(rest, name, n - 1);
    }
}

/// A value that fits on one line: no `\n`, and no `\r` at its end.
pub open spec fn single_line(value: Seq<char>) -> bool {
    &&& forall|k: int| 0 <= k < value.len() ==> value[k] != '\n'
    &&& (value.len() == 0 || value.last() != '\r')
}

proof fn lemma_line_ok(key: Seq<char>, value: Seq<char>)
    requires
        single_line(key),
        single_line(value),
    ensures
        forall|k: int|
            0 <= k < (key + seq!['='] + value).len() ==> (key + seq!['='] + value)[k] != '\n',
        strip_cr(key + seq!['='] + value) == key + seq!['='] + value,
{
    let line = key + seq!['='] + value;
    assert forall|k: int| 0 <= k < line.len() implies line[k] != '\n' by {
        if k < key.len() {
            assert(line[k] == key[k]);
        } else if k > key.len() {
            assert(line[k] == value[k - key.len() - 1]);
        }
    }
    if value.len() > 0 {
        assert(line.last() == value.last());
    }
}

proof fn lemma_digits_single_line(n: nat)
    ensures
        single_line(decimal(n)),
{
    lemma_decimal_digits(n);
    let s = decimal(n);
    assert forall|k: int| 0 <= k < s.len() implies s[k] != '\n' by {
        assert(is_digit(s[k]));
    }
    assert(is_digit(s[s.len() - 1]));
}

proof fn lemma_hex_single_line(bytes: Seq<u8>)
    ensures
        single_line(hex_text(bytes)),
{
    let h = hex_text(bytes);
    assert forall|i: int| 0 <= i < h.len() implies #[trigger] h[i] != '\n' && h[i] != '\r' by {
        if i % 2 == 0 {
            lemma_hex_digit(bytes[i / 2] as int / 16);
        } else {
            lemma_hex_digit(bytes[i / 2] as int % 16);
        }
    }
    if h.len() > 0 {
        assert(h[h.len() - 1] != '\r');
    }
}

/// `key=value`, a line of the format without its line ending.
pub open spec fn key_line(key: Seq<char>, value: Seq<char>) -> Seq<char> {
    key + seq!['='] + value
}

/// The lines of the text that records `r`.
pub open spec fn record_lines(r: SessionRecordView) -> Seq<Seq<char>> {
    seq![
        key_line("version"@, "1"@),
        key_line("id"@, r.id),
        key_line("pid"@, decimal(r.pid as nat)),
        key_line("process_start_ticks"@, decimal(r.process_start_ticks as nat)),
        key_line("started_unix_seconds"@, decimal(r.started_unix_seconds as nat)),
        key_line("runtime"@, hex_text(encode_utf8(r.runtime))),
        key_line("application"@, hex_text(encode_utf8(r.application))),
    ]
}

/// A line that `lines_of` gives back whole.
pub open spec fn whole_line(line: Seq<char>) -> bool {
    &&& forall|k: int| 0 <= k < line.len() ==> line[k] != '\n'
    &&& strip_cr(line) == line
}

proof fn lemma_record_lines_whole(r: SessionRecordView)
    requires
        single_line(r.id),
    ensures
        forall|i: int| 0 <= i < 7 ==> whole_line(#[trigger] record_lines(r)[i]),
{
    reveal_strlit("version");
    reveal_strlit("1");
    reveal_strlit("id");
    reveal_strlit("pid");
    reveal_strlit("process_start_ticks");
    reveal_strlit("started_unix_seconds");
    reveal_strlit("runtime");
    reveal_strlit("application");
    lemma_digits_single_line(r.pid as nat);
    lemma_digits_single_line(r.process_start_ticks as nat);
    lemma_digits_single_line(r.started_unix_seconds as nat);
    lemma_hex_single_line(encode_utf8(r.runtime));
    lemma_hex_single_line(encode_utf8(r.application));
    lemma_line_ok("version"@, "1"@);
    lemma_line_ok("id"@, r.id);
    lemma_line_ok("pid"@, decimal(r.pid as nat));
    lemma_line_ok("process_start_ticks"@, decimal(r.process_start_ticks as nat));
    lemma_line_ok("started_unix_seconds"@, decimal(r.started_unix_seconds as nat));
    lemma_line_ok("runtime"@, hex_text(encode_utf8(r.runtime)));
    lemma_line_ok("application"@, hex_text(encode_utf8(r.application)));
}

proof fn lemma_record_lines(r: SessionRecordView)
    requires
        single_line(r.id),
    ensures
        lines_of(record_text(r)) == record_lines(r),
{
    let ls = record_lines(r);
    lemma_record_lines_whole(r);
    assert(whole_line(ls[0]) && whole_line(ls[1]) && whole_line(ls[2]) && whole_line(ls[3]));
    assert(whole_line(ls[4]) && whole_line(ls[5]) && whole_line(ls[6]));
    let nl = seq!['\n'];
    let s7 = ls[6] + nl;
    let s6 = ls[5] + nl + s7;
    let s5 = ls[4] + nl + s6;
    let s4 = ls[3] + nl + s5;
    let s3 = ls[2] + nl + s4;
    let s2 = ls[1] + nl + s3;
    let s1 = ls[0] + nl + s2;
    assert(record_text(r) =~= s1);
    lemma_lines_cons(ls[6], Seq::<char>::empty());
    assert(ls[6] + nl + Seq::<char>::empty() =~= s7);
    lemma_lines_cons(ls[5], s7);
    lemma_lines_cons(ls[4], s6);
    lemma_lines_cons(ls[3], s5);
    lemma_lines_cons(ls[2], s4);
    lemma_lines_cons(ls[1], s3);
    lemma_lines_cons(ls[0], s2);
    assert(lines_of(record_text(r)) =~= ls);
}

proof fn lemma_record_fields(r: SessionRecordView)
    ensures
        field_value(record_lines(r), "version"@) == Some("1"@),
        field_value(record_lines(r), "id"@) == Some(r.id),
        field_value(record_lines(r), "pid"@) == Some(decimal(r.pid as nat)),
        field_value(record_lines(r), "process_start_ticks"@) == Some(
            decimal(r.process_start_ticks as nat),
        ),
        field_value(record_lines(r), "started_unix_seconds"@) == Some(
            decimal(r.started_unix_seconds as nat),
        ),
        field_value(record_lines(r), "runtime"@) == Some(hex_text(encode_utf8(r.runtime))),
        field_value(record_lines(r), "application"@) == Some(
            hex_text(encode_utf8(r.application)),
        ),
{
    reveal_strlit("version");
    reveal_strlit("1");
    reveal_strlit("id");
    reveal_strlit("pid");
    reveal_strlit("process_start_ticks");
    reveal_strlit("started_unix_seconds");
    reveal_strlit("runtime");
    reveal_strlit("application");
    let ls = record_lines(r);
    let k1 = "version"@;
    let k2 = "id"@;
    let k3 = "pid"@;
    let k4 = "process_start_ticks"@;
    let k5 = "started_unix_seconds"@;
    let k6 = "runtime"@;
    let k7 = "application"@;
    let v1 = "1"@;
    let v3 = decimal(r.pid as nat);
    let v4 = decimal(r.process_start_ticks as nat);
    let v5 = decimal(r.started_unix_seconds as nat);
    let v6 = hex_text(encode_utf8(r.runtime));
    let v7 = hex_text(encode_utf8(r.application));
    assert(field_value(ls, k1) == Some(v1)) by {
        lemma_key_value_own(k1, v1);
        lemma_field_found(ls, k1, 0);
    }
    assert(field_value(ls, k2) == Some(r.id)) by {
        lemma_key_value_own(k2, r.id);
        lemma_key_value_other(k1, v1, k2, 0);
        lemma_field_found(ls, k2, 1);
    }
    assert(field_value(ls, k3) == Some(v3)) by {
        lemma_key_value_own(k3, v3);
        lemma_key_value_other(k1, v1, k3, 0);
        lemma_key_value_other(k2, r.id, k3, 0);
        lemma_field_found(ls, k3, 2);
    }
    assert(field_value(ls, k4) == Some(v4)) by {
        lemma_key_value_own(k4, v4);
        lemma_key_value_other(k1, v1, k4, 0);
        lemma_key_value_other(k2, r.id, k4, 0);
        lemma_key_value_other(k3, v3, k4, 1);
        lemma_field_found(ls, k4, 3);
    }
    assert(field_value(ls, k5) == Some(v5)) by {
        lemma_key_value_own(k5, v5);
        lemma_key_value_other(k1, v1, k5, 0);
        lemma_key_value_other(k2, r.id, k5, 0);
        lemma_key_value_other(k3, v3, k5, 0);
        lemma_key_value_other(k4, v4, k5, 0);
        lemma_field_found(ls, k5, 4);
    }
    assert(field_value(ls, k6) == Some(v6)) by {
        lemma_key_value_own(k6, v6);
        lemma_key_value_other(k1, v1, k6, 0);
        lemma_key_value_other(k2, r.id, k6, 0);
        lemma_key_value_other(k3, v3, k6, 0);
        lemma_key_value_other(k4, v4, k6, 0);
        lemma_key_value_other(k5, v5, k6, 0);
        lemma_field_found(ls, k6, 5);
    }
    assert(field_value(ls, k7) == Some(v7)) by {
        lemma_key_value_own(k7, v7);
        lemma_key_value_other(k1, v1, k7, 0);
        lemma_key_value_other(k2, r.id, k7, 0);
        lemma_key_value_other(k3, v3, k7, 0);
        lemma_key_value_other(k4, v4, k7, 0);
        lemma_key_value_other(k5, v5, k7, 0);
        lemma_key_value_other(k6, v6, k7, 0);
        lemma_field_found(ls, k7, 6);
    }
}

/// Reading back the text of a record gives the record again, whatever its
/// application and runtime text, provided its id fits on one line.
pub proof fn lemma_record_round_trip(r: SessionRecordView)
    requires
        single_line(r.id),
    ensures
        parsed_record(record_text(r)) == Ok::<SessionRecordView, Seq<char>>(r),
{
    lemma_record_lines(r);
    lemma_record_fields(r);
    lemma_parse_decimal(r.pid as nat, u64::MAX as nat);
    lemma_parse_decimal(r.process_start_ticks as nat, u64::MAX as nat);
    lemma_parse_decimal(r.started_unix_seconds as nat, u64::MAX as nat);
    lemma_hex_round_trip(encode_utf8(r.runtime));
    lemma_hex_round_trip(encode_utf8(r.application));
    vstd::utf8::encode_utf8_valid_utf8(r.runtime);
    vstd::utf8::encode_utf8_valid_utf8(r.application);
    vstd::utf8::encode_utf8_decode_utf8(r.runtime);
    vstd::utf8::encode_utf8_decode_utf8(r.application);
}

} // verus!

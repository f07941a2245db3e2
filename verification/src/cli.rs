//! Rules of the command-line tool: options, modes, value parsing and safety gates.
//!
//! Every message is a plain text for the user.

use vstd::prelude::*;
use vstd::string::*;

use crate::descriptor;
use crate::descriptor::utf8_text;
use crate::endpoint_map;
use crate::endpoint_map::{parse_endpoint_id, EndpointMap, MapView, SpecId};
use crate::param_cache::DEFAULT_PARAM_TIMEOUT_MS;
use crate::protocol::MsgType;
use crate::report;
use crate::text;
use crate::text::{chars_of, push_dec, push_hex, same_text, trim, white_space};
use crate::values;
use crate::values::{ParamValue, ValueType};

verus! {

/// Options of the command line, `--key value`; a later value of a key replaces an earlier
/// one.
#[derive(Debug)]
pub struct Args {
    pairs: Vec<(String, String)>,
}

impl View for Args {
    type V = Map<Seq<char>, Seq<char>>;

    closed spec fn view(&self) -> Map<Seq<char>, Seq<char>> {
        options(self.pairs@)
    }
}

/// The options that a list of settings stands for.
pub open spec fn options(pairs: Seq<(String, String)>) -> Map<Seq<char>, Seq<char>>
    decreases pairs.len(),
{
    if pairs.len() == 0 {
        Map::empty()
    } else {
        options(pairs.drop_last()).insert(pairs.last().0@, pairs.last().1@)
    }
}

/// The value of an option.
pub open spec fn option_of(args: Map<Seq<char>, Seq<char>>, key: Seq<char>) -> Option<Seq<char>> {
    if args.dom().contains(key) {
        Some(args[key])
    } else {
        None
    }
}

impl Args {
    /// No options.
    pub fn new() -> (res: Self)
        ensures
            res@ == Map::<Seq<char>, Seq<char>>::empty(),
    {
        Args { pairs: Vec::new() }
    }

    /// Set an option.
    pub fn insert(&mut self, key: String, value: String)
        ensures
            final(self)@ == old(self)@.insert(key@, value@),
    {
        self.pairs.push((key, value));
        assert(self.pairs@.drop_last() =~= old(self).pairs@);
    }

    /// The value of an option.
    pub fn get(&self, key: &str) -> (res: Option<&str>)
        ensures
            match res {
                Some(value) => option_of(self@, key@) == Some(value@),
                None => option_of(self@, key@) is None,
            },
    {
        let mut i: usize = self.pairs.len();
        assert(self.pairs@.take(i as int) =~= self.pairs@);
        while i > 0
            invariant
                i <= self.pairs@.len(),
                option_of(self@, key@) == option_of(options(self.pairs@.take(i as int)), key@),
            decreases i,
        {
            proof {
                let head = self.pairs@.take(i as int);
                assert(head.drop_last() =~= self.pairs@.take(i - 1));
                assert(head.last() == self.pairs@[i - 1]);
            }
            if same_text(self.pairs[i - 1].0.as_str(), key) {
                return Some(self.pairs[i - 1].1.as_str());
            }
            i = i - 1;
        }
        None
    }

    /// Whether an option is set.
    pub fn contains_key(&self, key: &str) -> (res: bool)
        ensures
            res == self@.dom().contains(key@),
    {
        self.get(key).is_some()
    }
}

/// The endpoint that the options name, as written.
pub open spec fn endpoint_option(args: Map<Seq<char>, Seq<char>>) -> Result<
    Seq<char>,
    Seq<char>,
> {
    match option_of(args, "endpoint"@) {
        Some(value) => Ok(value),
        None => match option_of(args, "param-id"@) {
            Some(value) => Ok(value),
            None => Err(
                "--endpoint <id|name> is required for read-param/write-param (alias: --param-id)"@,
            ),
        },
    }
}

/// The endpoint that the options name: `--endpoint`, or its other spelling `--param-id`.
///
/// The value is returned as written: it may be an id (`0x00F2`) or a name that the device's
/// own endpoint table resolves (`gear_ratio`).
pub fn get_endpoint_spec(args: &Args) -> (res: Result<String, String>)
    ensures
        match res {
            Ok(spec) => endpoint_option(args@) == Ok::<Seq<char>, Seq<char>>(spec@),
            Err(message) => endpoint_option(args@) == Err::<Seq<char>, Seq<char>>(message@),
        },
{
    if let Some(value) = args.get("endpoint") {
        return Ok(value.to_owned());
    }
    if let Some(value) = args.get("param-id") {
        return Ok(value.to_owned());
    }
    Err(
        "--endpoint <id|name> is required for read-param/write-param (alias: --param-id)".to_owned(),
    )
}

/// The option that gives the torque: `tau` where it is set, else `torque`.
pub fn torque_option(args: &Args) -> (res: &'static str)
    ensures
        res@ == (if args@.dom().contains("tau"@) {
            "tau"@
        } else {
            "torque"@
        }),
{
    if args.contains_key("tau") {
        "tau"
    } else {
        "torque"
    }
}

/// The id of the endpoint that a specification stands for: through the device's table where
/// it is loaded, else only a number.
pub open spec fn endpoint_id_of(map: Option<MapView>, spec: Seq<char>) -> Result<u16, Seq<char>> {
    match map {
        Some(map) => match endpoint_map::resolved(map, spec) {
            Ok(i) => Ok(map.entries[i].endpoint_id),
            Err(fault) => Err(fault.text),
        },
        None => match endpoint_map::id_in_text(spec) {
            SpecId::Id(id) => Ok(id),
            _ => Err(
                "\""@ + spec
                    + "\" is not a numeric endpoint id and the device's endpoint table is not loaded (--no-endpoint-map?); use an id such as 0x00F2"@,
            ),
        },
    }
}

/// Turn an endpoint specification into an id.
pub fn resolve_endpoint(map: Option<&EndpointMap>, spec: &str) -> (res: Result<u16, String>)
    ensures
        ({
            let found = endpoint_id_of(
                match map {
                    Some(map) => Some(map@),
                    None => None,
                },
                spec@,
            );
            match res {
                Ok(id) => found == Ok::<u16, Seq<char>>(id),
                Err(message) => found == Err::<u16, Seq<char>>(message@),
            }
        }),
{
    match map {
        Some(map) => match map.resolve(spec) {
            Ok(entry) => Ok(entry.endpoint_id),
            Err(err) => Err(err.message().to_owned()),
        },
        None => match parse_endpoint_id(spec) {
            SpecId::Id(id) => Ok(id),
            _ => {
                let mut message: String = "\"".to_owned();
                message.append(spec);
                message.append(
                    "\" is not a numeric endpoint id and the device's endpoint table is not loaded (--no-endpoint-map?); use an id such as 0x00F2",
                );
                Err(message)
            },
        },
    }
}

/// Whether a character may stand between the digits of `--raw-bytes`.
pub open spec fn is_separator(c: char) -> bool {
    text::is_white_space(c) || c == ',' || c == '_'
}

/// A text without separators.
pub open spec fn kept(s: Seq<char>) -> Seq<char>
    decreases s.len(),
{
    if s.len() == 0 {
        Seq::empty()
    } else if is_separator(s.last()) {
        kept(s.drop_last())
    } else {
        kept(s.drop_last()).push(s.last())
    }
}

/// The byte that two base-16 digits spell.
pub open spec fn hex_pair(pair: Seq<char>) -> Option<u8> {
    if pair.len() == 2 && endpoint_map::is_digit_of(pair[0], 16) && endpoint_map::is_digit_of(
        pair[1],
        16,
    ) {
        Some(
            (endpoint_map::digit_value(pair[0]) * 16 + endpoint_map::digit_value(pair[1])) as u8,
        )
    } else {
        None
    }
}

/// The byte that two encoded bytes spell, or why they spell none.
pub open spec fn encoded_pair(written: Seq<char>, pair: Seq<u8>) -> Result<u8, Seq<char>> {
    if !vstd::utf8::valid_utf8(pair) {
        Err(descriptor::utf8_error(pair))
    } else {
        match hex_pair(vstd::utf8::decode_utf8(pair)) {
            Some(byte) => Ok(byte),
            None => Err(
                "--raw-bytes "@ + written + ": "@ + vstd::utf8::decode_utf8(pair)
                    + " is not a hex byte"@,
            ),
        }
    }
}

/// The bytes that the first `n` pairs spell.
pub open spec fn encoded_pairs(written: Seq<char>, encoded: Seq<u8>, n: nat) -> Result<
    Seq<u8>,
    Seq<char>,
>
    decreases n,
{
    if n == 0 {
        Ok(Seq::empty())
    } else {
        match encoded_pairs(written, encoded, (n - 1) as nat) {
            Err(message) => Err(message),
            Ok(bytes) => match encoded_pair(written, encoded.subrange(2 * n - 2, 2 * n as int)) {
                Err(message) => Err(message),
                Ok(byte) => Ok(bytes.push(byte)),
            },
        }
    }
}

/// The bytes that `--raw-bytes` gives.
pub open spec fn raw_bytes(written: Seq<char>) -> Result<Seq<u8>, Seq<char>> {
    let encoded = vstd::utf8::encode_utf8(kept(written));
    if encoded.len() == 0 || encoded.len() % 2 != 0 {
        Err("--raw-bytes "@ + written + " must be whole bytes, e.g. 08 00 00 00"@)
    } else {
        encoded_pairs(written, encoded, encoded.len() / 2)
    }
}

fn without_separators(written: &str) -> (res: String)
    ensures
        res@ == kept(written@),
{
    let chars: Vec<char> = chars_of(written);
    let mut out = String::new();
    let mut i: usize = 0;
    assert(out@ =~= kept(written@.take(0)));
    while i < chars.len()
        invariant
            i <= chars@.len(),
            chars@ == written@,
            out@ == kept(written@.take(i as int)),
        decreases chars@.len() - i,
    {
        let c: char = chars[i];
        proof {
            let next = written@.take(i + 1);
            assert(next.drop_last() =~= written@.take(i as int));
            assert(next.last() == c);
        }
        if !(white_space(c) || c == ',' || c == '_') {
            out.append(written.substring_char(i, i + 1));
            assert(out@ =~= kept(written@.take(i as int)).push(c));
        }
        i = i + 1;
    }
    assert(written@.take(i as int) =~= written@);
    out
}

fn read_pair(pair: &str) -> (res: Option<u8>)
    ensures
        res == hex_pair(pair@),
{
    let chars: Vec<char> = chars_of(pair);
    if chars.len() != 2 {
        return None;
    }
    match (endpoint_map::read_digit(chars[0], 16), endpoint_map::read_digit(chars[1], 16)) {
        (Some(high), Some(low)) => Some((high * 16 + low) as u8),
        _ => None,
    }
}

/// Parse `--raw-bytes`: base-16 byte pairs, separated by white space, commas, underscores
/// or nothing.
pub fn parse_hex_bytes(written: &str) -> (res: Result<Vec<u8>, String>)
    ensures
        match res {
            Ok(bytes) => raw_bytes(written@) == Ok::<Seq<u8>, Seq<char>>(bytes@),
            Err(message) => raw_bytes(written@) == Err::<Seq<u8>, Seq<char>>(message@),
        },
{
    let digits: String = without_separators(written);
    let encoded: &[u8] = digits.as_str().as_bytes();
    let len: usize = encoded.len();
    if len == 0 || len % 2 != 0 {
        let mut message: String = "--raw-bytes ".to_owned();
        message.append(written);
        message.append(" must be whole bytes, e.g. 08 00 00 00");
        return Err(message);
    }
    let count: usize = len / 2;
    let mut bytes: Vec<u8> = Vec::new();
    let mut i: usize = 0;
    while i < count
        invariant
            i <= count,
            2 * count == len,
            len == encoded@.len(),
            encoded@ == vstd::utf8::encode_utf8(kept(written@)),
            encoded_pairs(written@, encoded@, i as nat) == Ok::<Seq<u8>, Seq<char>>(bytes@),
            raw_bytes(written@) == encoded_pairs(written@, encoded@, count as nat),
        decreases count - i,
    {
        let mut pair: Vec<u8> = Vec::new();
        pair.push(encoded[2 * i]);
        pair.push(encoded[2 * i + 1]);
        assert(pair@ =~= encoded@.subrange(2 * i as int, 2 * i + 2));
        match utf8_text(pair) {
            Err(message) => {
                proof {
                    lemma_pairs_stop(written@, encoded@, (i + 1) as nat, count as nat);
                }
                return Err(message);
            },
            Ok(pair) => match read_pair(pair.as_str()) {
                Some(byte) => {
                    bytes.push(byte);
                },
                None => {
                    let mut message: String = "--raw-bytes ".to_owned();
                    message.append(written);
                    message.append(": ");
                    message.append(pair.as_str());
                    message.append(" is not a hex byte");
                    proof {
                        lemma_pairs_stop(written@, encoded@, (i + 1) as nat, count as nat);
                    }
                    return Err(message);
                },
            },
        }
        i = i + 1;
    }
    Ok(bytes)
}

proof fn lemma_pairs_stop(written: Seq<char>, encoded: Seq<u8>, n: nat, m: nat)
    requires
        n <= m,
        encoded_pairs(written, encoded, n) is Err,
    ensures
        encoded_pairs(written, encoded, m) == encoded_pairs(written, encoded, n),
    decreases m,
{
    if n < m {
        lemma_pairs_stop(written, encoded, n, (m - 1) as nat);
    }
}

/// Bytes as two-digit base-16 numbers with `separator` between them.
pub open spec fn pairs_text(bytes: Seq<u8>, separator: Seq<char>) -> Seq<char>
    decreases bytes.len(),
{
    if bytes.len() == 0 {
        Seq::empty()
    } else if bytes.len() == 1 {
        text::hex(bytes[0] as nat, 2)
    } else {
        pairs_text(bytes.drop_last(), separator) + separator + text::hex(bytes.last() as nat, 2)
    }
}

/// A base-16 digit in lower case; any other character as it is.
pub open spec fn lower_digit(c: char) -> char {
    if 'A' <= c <= 'F' {
        (c as int - 'A' as int + 'a' as int) as char
    } else {
        c
    }
}

/// A text with its base-16 digits in lower case.
pub open spec fn lower_digits(s: Seq<char>) -> Seq<char> {
    s.map_values(|c: char| lower_digit(c))
}

/// Whether digits spell bytes, two for each.
pub open spec fn spells(digits: Seq<char>, bytes: Seq<u8>) -> bool {
    &&& digits.len() == 2 * bytes.len()
    &&& forall|i: int|
        0 <= i < bytes.len() ==> hex_pair(digits.subrange(2 * i, 2 * i + 2)) == Some(
            #[trigger] bytes[i],
        )
}

proof fn lemma_kept_splits(a: Seq<char>, b: Seq<char>)
    ensures
        kept(a + b) == kept(a) + kept(b),
    decreases b.len(),
{
    if b.len() == 0 {
        assert(a + b =~= a);
    } else {
        assert((a + b).drop_last() =~= a + b.drop_last());
        lemma_kept_splits(a, b.drop_last());
        assert(kept(a + b) =~= kept(a) + kept(b));
    }
}

proof fn lemma_kept_lower(s: Seq<char>)
    ensures
        kept(lower_digits(s)) == lower_digits(kept(s)),
    decreases s.len(),
{
    if s.len() > 0 {
        lemma_kept_lower(s.drop_last());
        assert(lower_digits(s).drop_last() =~= lower_digits(s.drop_last()));
        assert(lower_digits(s).last() == lower_digit(s.last()));
        assert(kept(lower_digits(s)) =~= lower_digits(kept(s)));
    } else {
        assert(kept(lower_digits(s)) =~= lower_digits(kept(s)));
    }
}

proof fn lemma_byte_digits(byte: u8)
    ensures
        ({
            let pair = text::hex(byte as nat, 2);
            &&& pair.len() == 2
            &&& kept(pair) == pair
            &&& hex_pair(pair) == Some(byte)
        }),
{
    let pair = text::hex(byte as nat, 2);
    reveal_with_fuel(text::hex, 3);
    let high = text::digit_char(byte as int / 16);
    let low = text::digit_char(byte as int % 16);
    assert(pair =~= seq![high, low]);
    assert('0' <= high <= '9' || 'A' <= high <= 'F');
    assert('0' <= low <= '9' || 'A' <= low <= 'F');
    reveal_with_fuel(kept, 3);
    assert(pair.drop_last() =~= seq![high]);
    assert(seq![high].drop_last() =~= Seq::<char>::empty());
    assert(kept(pair) =~= pair);
}

proof fn lemma_pairs_text(bytes: Seq<u8>, separator: Seq<char>)
    requires
        kept(separator).len() == 0,
    ensures
        spells(kept(pairs_text(bytes, separator)), bytes),
    decreases bytes.len(),
{
    if bytes.len() == 1 {
        lemma_byte_digits(bytes[0]);
        let pair = text::hex(bytes[0] as nat, 2);
        assert(pair.subrange(0, 2) =~= pair);
    } else if bytes.len() > 1 {
        let before = bytes.drop_last();
        let head = pairs_text(before, separator);
        let pair = text::hex(bytes.last() as nat, 2);
        lemma_pairs_text(before, separator);
        lemma_byte_digits(bytes.last());
        lemma_kept_splits(head + separator, pair);
        lemma_kept_splits(head, separator);
        let all = kept(pairs_text(bytes, separator));
        assert(all =~= kept(head) + pair);
        assert forall|i: int| 0 <= i < bytes.len() implies hex_pair(
            all.subrange(2 * i, 2 * i + 2),
        ) == Some(#[trigger] bytes[i]) by {
            if i < before.len() {
                assert(before[i] == bytes[i]);
                assert(all.subrange(2 * i, 2 * i + 2) =~= kept(head).subrange(2 * i, 2 * i + 2));
            } else {
                assert(all.subrange(2 * i, 2 * i + 2) =~= pair);
            }
        }
    }
}

proof fn lemma_spells_lower(digits: Seq<char>, bytes: Seq<u8>)
    requires
        spells(digits, bytes),
    ensures
        spells(lower_digits(digits), bytes),
{
    let lower = lower_digits(digits);
    assert forall|i: int| 0 <= i < bytes.len() implies hex_pair(lower.subrange(2 * i, 2 * i + 2))
        == Some(#[trigger] bytes[i]) by {
        let pair = digits.subrange(2 * i, 2 * i + 2);
        assert(hex_pair(pair) == Some(bytes[i]));
        assert(pair[0] == digits[2 * i] && pair[1] == digits[2 * i + 1]);
    }
}

/// Digits that spell bytes are base-16 digits, so they are encoded one by one.
proof fn lemma_digits_are_ascii(digits: Seq<char>, bytes: Seq<u8>)
    requires
        spells(digits, bytes),
    ensures
        vstd::utf8::is_ascii_chars(digits),
{
    assert forall|k: int| 0 <= k < digits.len() implies endpoint_map::is_digit_of(
        #[trigger] digits[k],
        16,
    ) by {
        let i = k / 2;
        let pair = digits.subrange(2 * i, 2 * i + 2);
        assert(hex_pair(pair) == Some(bytes[i]));
        assert(pair[k - 2 * i] == digits[k]);
    }
}

proof fn lemma_pairs_of_digits(
    written: Seq<char>,
    digits: Seq<char>,
    bytes: Seq<u8>,
    n: nat,
)
    requires
        spells(digits, bytes),
        n <= bytes.len(),
    ensures
        encoded_pairs(written, vstd::utf8::encode_utf8(digits), n) == Ok::<Seq<u8>, Seq<char>>(
            bytes.take(n as int),
        ),
    decreases n,
{
    let encoded = vstd::utf8::encode_utf8(digits);
    if n == 0 {
        assert(bytes.take(0) =~= Seq::<u8>::empty());
    } else {
        let i = n - 1;
        lemma_pairs_of_digits(written, digits, bytes, i as nat);
        lemma_digits_are_ascii(digits, bytes);
        let pair = digits.subrange(2 * i, 2 * i + 2);
        assert(hex_pair(pair) == Some(bytes[i]));
        vstd::utf8::is_ascii_chars_encode_utf8(digits);
        vstd::utf8::is_ascii_chars_encode_utf8(pair);
        assert(pair[0] == digits[2 * i] && pair[1] == digits[2 * i + 1]);
        assert(encoded.subrange(2 * i, 2 * i + 2) =~= vstd::utf8::encode_utf8(pair));
        vstd::utf8::encode_utf8_valid_utf8(pair);
        vstd::utf8::encode_utf8_decode_utf8(pair);
        assert(bytes.take(n as int) =~= bytes.take(i).push(bytes[i]));
    }
}

/// A text whose characters, apart from separators, are the digits of bytes is read as those
/// bytes, wherever separators stand and in whichever case the digits are written.
pub proof fn law_digit_pairs_are_read(written: Seq<char>, bytes: Seq<u8>)
    requires
        bytes.len() > 0,
        spells(kept(written), bytes),
    ensures
        raw_bytes(written) == Ok::<Seq<u8>, Seq<char>>(bytes),
{
    let digits = kept(written);
    lemma_digits_are_ascii(digits, bytes);
    vstd::utf8::is_ascii_chars_encode_utf8(digits);
    lemma_pairs_of_digits(written, digits, bytes, bytes.len());
    assert(bytes.take(bytes.len() as int) =~= bytes);
}

/// What a pair that is read is made of.
proof fn lemma_read_pair(written: Seq<char>, pair: Seq<u8>)
    requires
        pair.len() == 2,
        encoded_pair(written, pair) is Ok,
    ensures
        pair[0] < 0x80 && pair[1] < 0x80,
        hex_pair(seq![pair[0] as char, pair[1] as char]) == Some(
            encoded_pair(written, pair)->Ok_0,
        ),
{
    let chars = vstd::utf8::decode_utf8(pair);
    vstd::utf8::decode_utf8_encode_utf8(pair);
    assert(vstd::utf8::is_ascii_chars(chars));
    vstd::utf8::is_ascii_chars_encode_utf8(chars);
    assert(chars[0] as u8 == pair[0] && chars[1] as u8 == pair[1]);
    assert(chars =~= seq![pair[0] as char, pair[1] as char]);
}

/// What the pairs that are read are made of.
proof fn lemma_read_pairs(written: Seq<char>, encoded: Seq<u8>, n: nat)
    requires
        2 * n <= encoded.len(),
        encoded_pairs(written, encoded, n) is Ok,
    ensures
        encoded_pairs(written, encoded, n)->Ok_0.len() == n,
        forall|i: int|
            0 <= i < n ==> encoded_pair(written, encoded.subrange(2 * i, 2 * i + 2)) == Ok::<
                u8,
                Seq<char>,
            >(#[trigger] encoded_pairs(written, encoded, n)->Ok_0[i]),
    decreases n,
{
    if n > 0 {
        lemma_read_pairs(written, encoded, (n - 1) as nat);
        let before = encoded_pairs(written, encoded, (n - 1) as nat)->Ok_0;
        let bytes = encoded_pairs(written, encoded, n)->Ok_0;
        assert forall|i: int| 0 <= i < n implies encoded_pair(
            written,
            encoded.subrange(2 * i, 2 * i + 2),
        ) == Ok::<u8, Seq<char>>(#[trigger] bytes[i]) by {
            if i < n - 1 {
                assert(bytes[i] == before[i]);
            }
        }
    }
}

/// Only digits are read: a text is accepted only if its characters, apart from separators,
/// are base-16 digits, two for each byte.
pub proof fn law_only_digit_pairs_are_read(written: Seq<char>, bytes: Seq<u8>)
    requires
        raw_bytes(written) == Ok::<Seq<u8>, Seq<char>>(bytes),
    ensures
        bytes.len() > 0,
        spells(kept(written), bytes),
{
    let encoded = vstd::utf8::encode_utf8(kept(written));
    let count = encoded.len() / 2;
    lemma_read_pairs(written, encoded, count);
    let digits = Seq::new(encoded.len(), |k: int| encoded[k] as char);
    assert forall|i: int| 0 <= i < bytes.len() implies hex_pair(
        digits.subrange(2 * i, 2 * i + 2),
    ) == Some(#[trigger] bytes[i]) by {
        let pair = encoded.subrange(2 * i, 2 * i + 2);
        assert(bytes[i] == encoded_pairs(written, encoded, count)->Ok_0[i]);
        lemma_read_pair(written, pair);
        assert(digits.subrange(2 * i, 2 * i + 2) =~= seq![pair[0] as char, pair[1] as char]);
    }
    lemma_digits_are_ascii(digits, bytes);
    vstd::utf8::is_ascii_chars_encode_utf8(digits);
    assert(vstd::utf8::encode_utf8(digits) =~= encoded) by {
        assert forall|k: int| 0 <= k < encoded.len() implies vstd::utf8::encode_utf8(digits)[k]
            == encoded[k] by {
            let i = k / 2;
            let pair = encoded.subrange(2 * i, 2 * i + 2);
            assert(encoded_pair(written, pair) == Ok::<u8, Seq<char>>(bytes[i]));
            lemma_read_pair(written, pair);
            assert(encoded[k] == pair[k - 2 * i]);
            assert(digits[k] as u8 == encoded[k]);
        }
    }
    vstd::utf8::encode_utf8_decode_utf8(digits);
    vstd::utf8::encode_utf8_decode_utf8(kept(written));
}

proof fn lemma_listing_has_blanks(bytes: Seq<u8>)
    ensures
        pairs_text(bytes, " "@) == report::bytes_text(bytes),
    decreases bytes.len(),
{
    if bytes.len() > 1 {
        lemma_listing_has_blanks(bytes.drop_last());
    }
}

proof fn lemma_separators()
    ensures
        kept(""@).len() == 0,
        kept(" "@).len() == 0,
        kept(","@).len() == 0,
        ""@ == Seq::<char>::empty(),
{
    reveal_strlit("");
    reveal_strlit(" ");
    reveal_strlit(",");
    reveal_with_fuel(kept, 2);
    assert(""@ =~= Seq::<char>::empty());
    assert(" "@.drop_last() =~= Seq::<char>::empty());
    assert(","@.drop_last() =~= Seq::<char>::empty());
    assert(" "@.last() == ' ');
    assert(","@.last() == ',');
}

/// Bytes that are written as text are read back unchanged: with blanks between them as they
/// are listed, with nothing or commas (or any other separators) instead, and with the digits
/// in lower case. Without any byte the text is empty, and an empty text is refused.
pub proof fn law_raw_bytes_round_trip(bytes: Seq<u8>, separator: Seq<char>)
    requires
        kept(separator).len() == 0,
    ensures
        bytes.len() > 0 ==> raw_bytes(report::bytes_text(bytes)) == Ok::<Seq<u8>, Seq<char>>(
            bytes,
        ) && raw_bytes(pairs_text(bytes, separator)) == Ok::<Seq<u8>, Seq<char>>(bytes)
            && raw_bytes(lower_digits(pairs_text(bytes, separator))) == Ok::<Seq<u8>, Seq<char>>(
            bytes,
        ),
        pairs_text(bytes, " "@) == report::bytes_text(bytes),
        kept(""@).len() == 0 && kept(" "@).len() == 0 && kept(","@).len() == 0,
        bytes.len() == 0 ==> report::bytes_text(bytes) == ""@,
        raw_bytes(""@) is Err,
{
    lemma_separators();
    lemma_listing_has_blanks(bytes);
    assert(kept(""@) =~= Seq::<char>::empty());
    vstd::utf8::is_ascii_chars_encode_utf8(kept(""@));
    if bytes.len() > 0 {
        let written = pairs_text(bytes, separator);
        lemma_pairs_text(bytes, separator);
        law_digit_pairs_are_read(written, bytes);
        lemma_spells_lower(kept(written), bytes);
        lemma_kept_lower(written);
        law_digit_pairs_are_read(lower_digits(written), bytes);
        lemma_pairs_text(bytes, " "@);
        law_digit_pairs_are_read(report::bytes_text(bytes), bytes);
    }
}

/// A text of bytes from which a single digit is missing is refused, wherever it is missing.
pub proof fn law_missing_digits_are_refused(
    bytes: Seq<u8>,
    separator: Seq<char>,
    at: int,
)
    requires
        kept(separator).len() == 0,
        0 <= at < pairs_text(bytes, separator).len(),
        !is_separator(pairs_text(bytes, separator)[at]),
    ensures
        ({
            let written = pairs_text(bytes, separator).remove(at);
            raw_bytes(written) == Err::<Seq<u8>, Seq<char>>(
                "--raw-bytes "@ + written + " must be whole bytes, e.g. 08 00 00 00"@,
            )
        }),
{
    let whole = pairs_text(bytes, separator);
    let head = whole.take(at);
    let tail = whole.skip(at + 1);
    let written = whole.remove(at);
    let digits = kept(written);
    let one = seq![whole[at]];
    assert(written =~= head + tail);
    assert(whole =~= head + one + tail);
    lemma_kept_splits(head, tail);
    lemma_kept_splits(head + one, tail);
    lemma_kept_splits(head, one);
    reveal_with_fuel(kept, 2);
    assert(one.drop_last() =~= Seq::<char>::empty());
    assert(kept(one) =~= one);
    lemma_pairs_text(bytes, separator);
    lemma_digits_are_ascii(kept(whole), bytes);
    assert(digits.len() == 2 * bytes.len() - 1);
    assert forall|k: int| 0 <= k < digits.len() implies exists|m: int|
        0 <= m < kept(whole).len() && #[trigger] digits[k] == #[trigger] kept(whole)[m] by {
        if k < kept(head).len() {
            assert(digits[k] == kept(whole)[k]);
        } else {
            assert(digits[k] == kept(whole)[k + 1]);
        }
    }
    assert(vstd::utf8::is_ascii_chars(digits));
    vstd::utf8::is_ascii_chars_encode_utf8(digits);
}

/// The digits of a decimal number without its sign.
pub open spec fn unsigned_part(s: Seq<char>, negative: bool) -> Seq<char> {
    if s.len() > 0 && (s[0] == '+' || (negative && s[0] == '-')) {
        s.skip(1)
    } else {
        s
    }
}

/// The number that a text spells in base 10, with a sign; a minus only where `negative`.
pub open spec fn integer_in(s: Seq<char>, negative: bool) -> Option<int> {
    let digits = unsigned_part(s, negative);
    if !endpoint_map::all_digits(digits, 10) {
        None
    } else if negative && s[0] == '-' {
        Some(-(endpoint_map::number_of(digits, 10) as int))
    } else {
        Some(endpoint_map::number_of(digits, 10) as int)
    }
}

/// More than any integer value type holds: numbers are counted up to this.
const NUMBER_LIMIT: u128 = 0x2_0000_0000_0000_0000;

proof fn lemma_number_grows(digits: Seq<char>, n: int)
    requires
        0 <= n <= digits.len(),
        endpoint_map::number_of(digits.take(n), 10) >= NUMBER_LIMIT,
    ensures
        endpoint_map::number_of(digits, 10) >= NUMBER_LIMIT,
    decreases digits.len() - n,
{
    if n == digits.len() {
        assert(digits.take(n) =~= digits);
    } else {
        assert(digits.take(n + 1).drop_last() =~= digits.take(n));
        lemma_number_grows(digits, n + 1);
    }
}

/// Read decimal digits; numbers from [`NUMBER_LIMIT`] on count as that.
fn read_number(chars: &Vec<char>, from: usize) -> (res: Option<u128>)
    requires
        from <= chars@.len(),
    ensures
        match res {
            Some(n) => endpoint_map::all_digits(chars@.skip(from as int), 10) && n <= NUMBER_LIMIT
                && (n < NUMBER_LIMIT ==> n == endpoint_map::number_of(
                chars@.skip(from as int),
                10,
            )) && (n == NUMBER_LIMIT ==> endpoint_map::number_of(chars@.skip(from as int), 10)
                >= NUMBER_LIMIT),
            None => !endpoint_map::all_digits(chars@.skip(from as int), 10),
        },
{
    let ghost digits = chars@.skip(from as int);
    let len: usize = chars.len();
    if from == len {
        return None;
    }
    let mut value: u128 = 0;
    let mut i: usize = from;
    assert(digits.take(0) =~= Seq::<char>::empty());
    while i < len
        invariant
            from <= i <= len,
            len == chars@.len(),
            digits == chars@.skip(from as int),
            forall|k: int|
                0 <= k < i - from ==> endpoint_map::is_digit_of(#[trigger] digits[k], 10),
            value <= NUMBER_LIMIT,
            value < NUMBER_LIMIT ==> endpoint_map::number_of(digits.take(i - from), 10) == value,
            value == NUMBER_LIMIT ==> endpoint_map::number_of(digits, 10) >= NUMBER_LIMIT,
        decreases len - i,
    {
        assert(digits[i - from] == chars@[i as int]);
        match endpoint_map::read_digit(chars[i], 10) {
            None => {
                return None;
            },
            Some(d) => {
                if value < NUMBER_LIMIT {
                    let next: u128 = value * 10 + d as u128;
                    proof {
                        let head = digits.take(i - from + 1);
                        assert(head.drop_last() =~= digits.take(i - from));
                        assert(head.last() == digits[i - from]);
                        assert(endpoint_map::number_of(head, 10) == next);
                        if next >= NUMBER_LIMIT {
                            lemma_number_grows(digits, i - from + 1);
                        }
                    }
                    value = if next < NUMBER_LIMIT { next } else { NUMBER_LIMIT };
                }
            },
        }
        i = i + 1;
    }
    assert(digits.take(len - from) =~= digits);
    Some(value)
}

/// The number that a text spells, if it lies between `low` and `high`.
fn read_integer(written: &str, low: i128, high: i128) -> (res: Option<i128>)
    requires
        -0x8000_0000_0000_0000 <= low <= 0,
        0 <= high <= 0xFFFF_FFFF_FFFF_FFFF,
    ensures
        res == (match integer_in(written@, low < 0) {
            Some(n) => if low <= n <= high {
                Some(n as i128)
            } else {
                None
            },
            None => None,
        }),
{
    let chars: Vec<char> = chars_of(written);
    if chars.len() == 0 {
        return None;
    }
    let minus: bool = low < 0 && chars[0] == '-';
    let from: usize = if minus || chars[0] == '+' { 1 } else { 0 };
    assert(chars@.skip(0) =~= chars@);
    assert(unsigned_part(written@, low < 0) == chars@.skip(from as int));
    match read_number(&chars, from) {
        None => None,
        Some(size) => {
            let n: i128 = if minus { -(size as i128) } else { size as i128 };
            if low <= n && n <= high {
                Some(n)
            } else {
                None
            }
        },
    }
}

/// Whether a character is a letter, where `A` to `Z` count as their lower case.
pub open spec fn is_letter(c: char, letter: char) -> bool {
    if 'A' <= c <= 'Z' {
        c as u32 + 32 == letter as u32
    } else {
        c == letter
    }
}

/// Whether a text is a word, where `A` to `Z` count as their lower case.
pub open spec fn is_word(s: Seq<char>, word: Seq<char>) -> bool {
    s.len() == word.len() && forall|i: int|
        0 <= i < s.len() ==> is_letter(#[trigger] s[i], word[i])
}

fn same_word(s: &str, word: &str) -> (res: bool)
    ensures
        res == is_word(s@, word@),
{
    let chars: Vec<char> = chars_of(s);
    let letters: Vec<char> = chars_of(word);
    if chars.len() != letters.len() {
        return false;
    }
    let mut i: usize = 0;
    while i < chars.len()
        invariant
            i <= chars@.len(),
            chars@ == s@,
            letters@ == word@,
            chars@.len() == letters@.len(),
            forall|k: int| 0 <= k < i ==> is_letter(#[trigger] s@[k], word@[k]),
        decreases chars@.len() - i,
    {
        let c: char = chars[i];
        let letter: char = letters[i];
        let same: bool = if 'A' <= c && c <= 'Z' {
            c as u32 + 32 == letter as u32
        } else {
            c == letter
        };
        if !same {
            assert(!is_letter(s@[i as int], word@[i as int]));
            return false;
        }
        i = i + 1;
    }
    true
}

/// The message for a value that its endpoint cannot hold.
pub open spec fn invalid_value(written: Seq<char>, what: Seq<char>) -> Seq<char> {
    "--value "@ + written + " is not a valid "@ + what
}

/// The integer value that a text spells for a declared type, if it is one.
pub open spec fn integer_value(n: int, declared: ValueType) -> Option<ParamValue> {
    match declared {
        ValueType::U8 => if 0 <= n <= u8::MAX {
            Some(ParamValue::U8(n as u8))
        } else {
            None
        },
        ValueType::U16 => if 0 <= n <= u16::MAX {
            Some(ParamValue::U16(n as u16))
        } else {
            None
        },
        ValueType::U32 => if 0 <= n <= u32::MAX {
            Some(ParamValue::U32(n as u32))
        } else {
            None
        },
        ValueType::U64 => if 0 <= n <= u64::MAX {
            Some(ParamValue::U64(n as u64))
        } else {
            None
        },
        ValueType::I8 => if i8::MIN <= n <= i8::MAX {
            Some(ParamValue::I8(n as i8))
        } else {
            None
        },
        ValueType::I16 => if i16::MIN <= n <= i16::MAX {
            Some(ParamValue::I16(n as i16))
        } else {
            None
        },
        ValueType::I32 => if i32::MIN <= n <= i32::MAX {
            Some(ParamValue::I32(n as i32))
        } else {
            None
        },
        ValueType::I64 => if i64::MIN <= n <= i64::MAX {
            Some(ParamValue::I64(n as i64))
        } else {
            None
        },
        _ => None,
    }
}

/// Whether a declared type has negative values.
pub open spec fn is_signed(declared: ValueType) -> bool {
    declared is I8 || declared is I16 || declared is I32 || declared is I64
}

/// The value that `--value` gives for a declared type. `float` is the bit pattern of the
/// number, at the declared width, that the text without surrounding white space spells.
pub open spec fn value_in(written: Seq<char>, declared: ValueType, float: Option<u64>) -> Result<
    ParamValue,
    Seq<char>,
> {
    let word = text::trimmed(written);
    match declared {
        ValueType::F32 => match float {
            Some(bits) => Ok(ParamValue::F32((bits % 0x1_0000_0000) as u32)),
            None => Err(invalid_value(word, "float"@)),
        },
        ValueType::F64 => match float {
            Some(bits) => Ok(ParamValue::F64(bits)),
            None => Err(invalid_value(word, "float64"@)),
        },
        ValueType::Bool => if is_word(word, "true"@) || is_word(word, "1"@) {
            Ok(ParamValue::Bool(true))
        } else if is_word(word, "false"@) || is_word(word, "0"@) {
            Ok(ParamValue::Bool(false))
        } else {
            Err(invalid_value(word, "bool (true/false/1/0)"@))
        },
        _ => match integer_in(word, is_signed(declared)) {
            Some(n) => match integer_value(n, declared) {
                Some(value) => Ok(value),
                None => Err(invalid_value(word, declared.name())),
            },
            None => Err(invalid_value(word, declared.name())),
        },
    }
}

fn invalid(written: &str, what: &str) -> (res: String)
    ensures
        res@ == invalid_value(written@, what@),
{
    let mut message: String = "--value ".to_owned();
    message.append(written);
    message.append(" is not a valid ");
    message.append(what);
    message
}

fn read_declared(word: &str, declared: ValueType) -> (res: Option<ParamValue>)
    ensures
        res == (match integer_in(word@, is_signed(declared)) {
            Some(n) => integer_value(n, declared),
            None => None,
        }),
{
    match declared {
        ValueType::U8 => match read_integer(word, 0, 0xFF) {
            Some(n) => Some(ParamValue::U8(n as u8)),
            None => None,
        },
        ValueType::U16 => match read_integer(word, 0, 0xFFFF) {
            Some(n) => Some(ParamValue::U16(n as u16)),
            None => None,
        },
        ValueType::U32 => match read_integer(word, 0, 0xFFFF_FFFF) {
            Some(n) => Some(ParamValue::U32(n as u32)),
            None => None,
        },
        ValueType::U64 => match read_integer(word, 0, 0xFFFF_FFFF_FFFF_FFFF) {
            Some(n) => Some(ParamValue::U64(n as u64)),
            None => None,
        },
        ValueType::I8 => match read_integer(word, -0x80, 0x7F) {
            Some(n) => Some(ParamValue::I8(n as i8)),
            None => None,
        },
        ValueType::I16 => match read_integer(word, -0x8000, 0x7FFF) {
            Some(n) => Some(ParamValue::I16(n as i16)),
            None => None,
        },
        ValueType::I32 => match read_integer(word, -0x8000_0000, 0x7FFF_FFFF) {
            Some(n) => Some(ParamValue::I32(n as i32)),
            None => None,
        },
        ValueType::I64 => match read_integer(
            word,
            -0x8000_0000_0000_0000,
            0x7FFF_FFFF_FFFF_FFFF,
        ) {
            Some(n) => Some(ParamValue::I64(n as i64)),
            None => None,
        },
        _ => None,
    }
}

/// Parse `--value` into the type that the device declares for the endpoint.
///
/// The declaration decides the width: a `uint8` endpoint gets one byte. For a float type
/// the number itself is handed in, as the bit pattern of the text without surrounding white
/// space at the declared width; `None` when the text is no number.
pub fn parse_param_value(written: &str, declared: ValueType, float: Option<u64>) -> (res: Result<
    ParamValue,
    String,
>)
    ensures
        match res {
            Ok(value) => value_in(written@, declared, float) == Ok::<ParamValue, Seq<char>>(value),
            Err(message) => value_in(written@, declared, float) == Err::<ParamValue, Seq<char>>(
                message@,
            ),
        },
{
    let word: &str = trim(written);
    match declared {
        ValueType::F32 => match float {
            Some(bits) => Ok(ParamValue::F32((bits % 0x1_0000_0000) as u32)),
            None => Err(invalid(word, "float")),
        },
        ValueType::F64 => match float {
            Some(bits) => Ok(ParamValue::F64(bits)),
            None => Err(invalid(word, "float64")),
        },
        ValueType::Bool => if same_word(word, "true") || same_word(word, "1") {
            Ok(ParamValue::Bool(true))
        } else if same_word(word, "false") || same_word(word, "0") {
            Ok(ParamValue::Bool(false))
        } else {
            Err(invalid(word, "bool (true/false/1/0)"))
        },
        _ => match read_declared(word, declared) {
            Some(value) => Ok(value),
            None => Err(invalid(word, declared.label())),
        },
    }
}

/// A parsed value always has the declared type, so writing it passes the type check.
pub proof fn law_parsed_values_have_the_declared_type(
    written: Seq<char>,
    declared: ValueType,
    float: Option<u64>,
)
    ensures
        value_in(written, declared, float) matches Ok(value) ==> value.type_of() == declared,
{
}

/// Modes of the command-line tool.
#[derive(Debug, Clone, Copy, PartialEq, Eq, Structural)]
pub enum Mode {
    Scan,
    Status,
    Mit,
    Pos,
    Vel,
    Torque,
    Enable,
    Disable,
    Estop,
    ClearError,
    SetZero,
    ReadParam,
    WriteParam,
    FindEndpoint,
    EndpointMap,
    Monitor,
    KeepAlive,
    Reset,
}

/// The mode of a name.
pub open spec fn mode_named(name: Seq<char>) -> Option<Mode> {
    if name == "scan"@ {
        Some(Mode::Scan)
    } else if name == "status"@ {
        Some(Mode::Status)
    } else if name == "mit"@ {
        Some(Mode::Mit)
    } else if name == "pos"@ {
        Some(Mode::Pos)
    } else if name == "vel"@ {
        Some(Mode::Vel)
    } else if name == "torque"@ {
        Some(Mode::Torque)
    } else if name == "enable"@ {
        Some(Mode::Enable)
    } else if name == "disable"@ {
        Some(Mode::Disable)
    } else if name == "estop"@ {
        Some(Mode::Estop)
    } else if name == "clear-error"@ || name == "clear-fault"@ {
        Some(Mode::ClearError)
    } else if name == "set-zero"@ {
        Some(Mode::SetZero)
    } else if name == "read-param"@ {
        Some(Mode::ReadParam)
    } else if name == "write-param"@ {
        Some(Mode::WriteParam)
    } else if name == "find-endpoint"@ {
        Some(Mode::FindEndpoint)
    } else if name == "endpoint-map"@ {
        Some(Mode::EndpointMap)
    } else if name == "monitor"@ {
        Some(Mode::Monitor)
    } else if name == "keep-alive"@ {
        Some(Mode::KeepAlive)
    } else if name == "reset"@ {
        Some(Mode::Reset)
    } else {
        None
    }
}

/// The message for a name that is no mode.
pub open spec fn unknown_mode(name: Seq<char>) -> Seq<char> {
    "unknown mode: "@ + name
        + ". Supported: scan, status, mit, pos, vel, torque, enable, disable, estop, clear-error, set-zero, read-param, write-param, endpoint-map, find-endpoint, monitor, keep-alive, reset"@
}

/// The mode of a name, or the message for a name that is no mode.
pub fn parse_mode(name: &str) -> (res: Result<Mode, String>)
    ensures
        match res {
            Ok(mode) => mode_named(name@) == Some(mode),
            Err(message) => mode_named(name@) is None && message@ == unknown_mode(name@),
        },
{
    if same_text(name, "scan") {
        Ok(Mode::Scan)
    } else if same_text(name, "status") {
        Ok(Mode::Status)
    } else if same_text(name, "mit") {
        Ok(Mode::Mit)
    } else if same_text(name, "pos") {
        Ok(Mode::Pos)
    } else if same_text(name, "vel") {
        Ok(Mode::Vel)
    } else if same_text(name, "torque") {
        Ok(Mode::Torque)
    } else if same_text(name, "enable") {
        Ok(Mode::Enable)
    } else if same_text(name, "disable") {
        Ok(Mode::Disable)
    } else if same_text(name, "estop") {
        Ok(Mode::Estop)
    } else if same_text(name, "clear-error") || same_text(name, "clear-fault") {
        Ok(Mode::ClearError)
    } else if same_text(name, "set-zero") {
        Ok(Mode::SetZero)
    } else if same_text(name, "read-param") {
        Ok(Mode::ReadParam)
    } else if same_text(name, "write-param") {
        Ok(Mode::WriteParam)
    } else if same_text(name, "find-endpoint") {
        Ok(Mode::FindEndpoint)
    } else if same_text(name, "endpoint-map") {
        Ok(Mode::EndpointMap)
    } else if same_text(name, "monitor") {
        Ok(Mode::Monitor)
    } else if same_text(name, "keep-alive") {
        Ok(Mode::KeepAlive)
    } else if same_text(name, "reset") {
        Ok(Mode::Reset)
    } else {
        let mut message: String = "unknown mode: ".to_owned();
        message.append(name);
        message.append(
            ". Supported: scan, status, mit, pos, vel, torque, enable, disable, estop, clear-error, set-zero, read-param, write-param, endpoint-map, find-endpoint, monitor, keep-alive, reset",
        );
        Err(message)
    }
}

/// Whether a mode loads the endpoint map when it connects.
///
/// A scan asks nodes that are expected to be silent, a monitor sends nothing at all, and a
/// reset has to go out at once to a node in any state.
pub open spec fn wants_map(mode: Mode) -> bool {
    !(mode is Scan || mode is Monitor || mode is Reset)
}

/// Whether a mode leaves the axis as it is when it ends.
///
/// A stop on exit would undo `enable`; a scan, a status query and a monitor announce that
/// they send no StopMotor frame; and a reset consists of its one frame.
pub open spec fn leaves_axis_alone(mode: Mode) -> bool {
    mode is Enable || mode is Scan || mode is Status || mode is Monitor || mode is Reset
}

/// How a mode starts and ends its session.
#[derive(Debug, Clone, Copy, PartialEq, Eq, Structural)]
pub struct Session {
    /// Whether connecting loads the endpoint map.
    pub load_map: bool,
    /// Whether the link is probed before the first frame of the mode.
    pub warm_up: bool,
    /// Whether every motor is stopped before the bus is closed.
    pub stop_on_exit: bool,
}

/// How a mode starts and ends its session. Without an endpoint map nothing has been
/// exchanged with the node yet, so the link is warmed up; an emergency stop or a reset never
/// waits for an answer.
pub open spec fn session_of(mode: Mode, no_endpoint_map: bool) -> Session {
    Session {
        load_map: wants_map(mode) && !no_endpoint_map,
        warm_up: wants_map(mode) && no_endpoint_map && !(mode is Estop),
        stop_on_exit: !leaves_axis_alone(mode),
    }
}

/// How a mode starts and ends its session.
pub fn plan_session(mode: Mode, no_endpoint_map: bool) -> (res: Session)
    ensures
        res == session_of(mode, no_endpoint_map),
{
    let wants: bool = match mode {
        Mode::Scan | Mode::Monitor | Mode::Reset => false,
        _ => true,
    };
    let stops: bool = match mode {
        Mode::Estop => true,
        _ => false,
    };
    let leaves: bool = match mode {
        Mode::Enable | Mode::Scan | Mode::Status | Mode::Monitor | Mode::Reset => true,
        _ => false,
    };
    Session {
        load_map: wants && !no_endpoint_map,
        warm_up: wants && no_endpoint_map && !stops,
        stop_on_exit: !leaves,
    }
}

/// An emergency stop without endpoint map, a reset and a monitor put no frame of their own
/// session on the bus before the mode itself does; a reset and a monitor put none there
/// afterwards either.
pub proof fn law_urgent_modes_do_not_wait(mode: Mode, no_endpoint_map: bool)
    requires
        mode is Reset || mode is Monitor || (mode is Estop && no_endpoint_map),
    ensures
        !session_of(mode, no_endpoint_map).load_map,
        !session_of(mode, no_endpoint_map).warm_up,
        !(mode is Estop) ==> !session_of(mode, no_endpoint_map).stop_on_exit,
{
}

/// The messages that a mode itself sends, in order.
///
/// A scan repeats its query for each node, a control loop its control message until it is
/// stopped, and a keep-alive both of its queries. A write is read before and after. What is
/// read to check or scale a control loop, and the transfer of the endpoint map, are not
/// among them.
pub open spec fn messages_of(mode: Mode) -> Seq<MsgType> {
    match mode {
        Mode::Scan => seq![MsgType::QueryStatus],
        Mode::Status => seq![
            MsgType::QueryStatus,
            MsgType::QueryPosVel,
            MsgType::QueryDeviceInfo,
        ],
        Mode::Mit => seq![MsgType::StartMotor, MsgType::MitControl, MsgType::StopMotor],
        Mode::Pos => seq![MsgType::StartMotor, MsgType::PosControl, MsgType::StopMotor],
        Mode::Vel => seq![MsgType::StartMotor, MsgType::VelControl, MsgType::StopMotor],
        Mode::Torque => seq![MsgType::StartMotor, MsgType::TorqueControl, MsgType::StopMotor],
        Mode::Enable => seq![MsgType::StartMotor],
        Mode::Disable => seq![MsgType::StopMotor],
        Mode::Estop => seq![MsgType::Estop],
        Mode::ClearError => seq![MsgType::ClearErrors],
        Mode::SetZero => seq![MsgType::SetZero],
        Mode::ReadParam => seq![MsgType::ParamRead],
        Mode::WriteParam => seq![MsgType::ParamRead, MsgType::ParamWrite, MsgType::ParamRead],
        Mode::FindEndpoint => Seq::empty(),
        Mode::EndpointMap => Seq::empty(),
        Mode::Monitor => Seq::empty(),
        Mode::KeepAlive => seq![MsgType::QueryStatus, MsgType::QueryPosVel],
        Mode::Reset => seq![MsgType::ResetDevice],
    }
}

/// The messages that a mode itself sends, in order.
pub fn mode_commands(mode: Mode) -> (res: Vec<MsgType>)
    ensures
        res@ == messages_of(mode),
{
    match mode {
        Mode::Scan => vec![MsgType::QueryStatus],
        Mode::Status => vec![
            MsgType::QueryStatus,
            MsgType::QueryPosVel,
            MsgType::QueryDeviceInfo,
        ],
        Mode::Mit => vec![MsgType::StartMotor, MsgType::MitControl, MsgType::StopMotor],
        Mode::Pos => vec![MsgType::StartMotor, MsgType::PosControl, MsgType::StopMotor],
        Mode::Vel => vec![MsgType::StartMotor, MsgType::VelControl, MsgType::StopMotor],
        Mode::Torque => vec![MsgType::StartMotor, MsgType::TorqueControl, MsgType::StopMotor],
        Mode::Enable => vec![MsgType::StartMotor],
        Mode::Disable => vec![MsgType::StopMotor],
        Mode::Estop => vec![MsgType::Estop],
        Mode::ClearError => vec![MsgType::ClearErrors],
        Mode::SetZero => vec![MsgType::SetZero],
        Mode::ReadParam => vec![MsgType::ParamRead],
        Mode::WriteParam => vec![MsgType::ParamRead, MsgType::ParamWrite, MsgType::ParamRead],
        Mode::FindEndpoint | Mode::EndpointMap | Mode::Monitor => Vec::new(),
        Mode::KeepAlive => vec![MsgType::QueryStatus, MsgType::QueryPosVel],
        Mode::Reset => vec![MsgType::ResetDevice],
    }
}

/// Whether a message only asks the device for something.
pub open spec fn only_asks(msg_type: MsgType) -> bool {
    msg_type is QueryStatus || msg_type is QueryPosVel || msg_type is QueryDeviceInfo
        || msg_type is ParamRead
}

/// A mode that looks at a device only asks: none of its own messages starts, stops or moves
/// the axis or changes a setting. A scan, a status query and a monitor leave the axis as it is
/// also at their end, and a monitor sends nothing at all; the other ones end with a stop of the
/// motors.
pub proof fn law_looking_only_asks(mode: Mode, no_endpoint_map: bool)
    requires
        mode is Scan || mode is Status || mode is ReadParam || mode is FindEndpoint
            || mode is EndpointMap || mode is Monitor || mode is KeepAlive,
    ensures
        forall|i: int|
            0 <= i < messages_of(mode).len() ==> only_asks(#[trigger] messages_of(mode)[i]),
        mode is Monitor ==> messages_of(mode).len() == 0 && !session_of(mode, no_endpoint_map).load_map
            && !session_of(mode, no_endpoint_map).warm_up,
        session_of(mode, no_endpoint_map).stop_on_exit <==> mode is ReadParam
            || mode is FindEndpoint || mode is EndpointMap || mode is KeepAlive,
{
}

/// A control loop starts the axis before it moves it and stops it at its end.
pub proof fn law_control_loops_stop_the_axis(mode: Mode)
    requires
        mode is Mit || mode is Pos || mode is Vel || mode is Torque,
    ensures
        messages_of(mode).len() == 3,
        messages_of(mode).first() is StartMotor,
        messages_of(mode).last() is StopMotor,
{
}

/// Why a mode does not run without `--yes`, when it does not.
pub open spec fn unconfirmed(mode: Mode, yes: bool) -> Option<Seq<char>> {
    if yes {
        None
    } else if mode is SetZero {
        Some("set-zero changes the mechanical zero reference; re-run with --yes to confirm"@)
    } else if mode is WriteParam {
        Some("write-param changes device configuration; re-run with --yes to confirm"@)
    } else if mode is Reset {
        Some("reset restarts the device firmware; re-run with --yes to confirm"@)
    } else {
        None
    }
}

/// Refuse a mode that changes the device for good unless it is confirmed.
pub fn check_confirmed(mode: Mode, yes: bool) -> (res: Result<(), String>)
    ensures
        match res {
            Ok(_) => unconfirmed(mode, yes) is None,
            Err(message) => unconfirmed(mode, yes) == Some(message@),
        },
{
    if yes {
        return Ok(());
    }
    match mode {
        Mode::SetZero => Err(
            "set-zero changes the mechanical zero reference; re-run with --yes to confirm".to_owned(),
        ),
        Mode::WriteParam => Err(
            "write-param changes device configuration; re-run with --yes to confirm".to_owned(),
        ),
        Mode::Reset => Err(
            "reset restarts the device firmware; re-run with --yes to confirm".to_owned(),
        ),
        _ => Ok(()),
    }
}

/// The endpoint that a write names, or why the write is not started: without an endpoint,
/// without a value, or without a confirmation.
pub open spec fn write_request(args: Map<Seq<char>, Seq<char>>) -> Result<Seq<char>, Seq<char>> {
    match endpoint_option(args) {
        Err(message) => Err(message),
        Ok(spec) => if !args.dom().contains("value"@) && !args.dom().contains("raw-bytes"@) {
            Err(
                "--value <number|true|false> (or --raw-bytes <hex>) is required for write-param"@,
            )
        } else {
            match unconfirmed(Mode::WriteParam, args.dom().contains("yes"@)) {
                Some(message) => Err(message),
                None => Ok(spec),
            }
        },
    }
}

/// Check the options of a write; the endpoint is returned as written.
pub fn check_write_request(args: &Args) -> (res: Result<String, String>)
    ensures
        match res {
            Ok(spec) => write_request(args@) == Ok::<Seq<char>, Seq<char>>(spec@),
            Err(message) => write_request(args@) == Err::<Seq<char>, Seq<char>>(message@),
        },
{
    let spec: String = match get_endpoint_spec(args) {
        Ok(spec) => spec,
        Err(message) => {
            return Err(message);
        },
    };
    if !args.contains_key("value") && !args.contains_key("raw-bytes") {
        return Err(
            "--value <number|true|false> (or --raw-bytes <hex>) is required for write-param".to_owned(),
        );
    }
    match check_confirmed(Mode::WriteParam, args.contains_key("yes")) {
        Ok(_) => Ok(spec),
        Err(message) => Err(message),
    }
}

/// The declared type of the endpoint that is to be written, or why it cannot be.
pub open spec fn write_target(map: Option<MapView>, endpoint_id: u16) -> Result<
    ValueType,
    Seq<char>,
> {
    match map {
        None => Err(
            "write-param needs the device's endpoint table: drop --no-endpoint-map so the declared value width is known"@,
        ),
        Some(map) => match endpoint_map::id_position(map.entries, endpoint_id) {
            None => Err(
                "endpoint 0x"@ + text::hex(endpoint_id as nat, 4)
                    + " is not in the device's endpoint table"@,
            ),
            Some(i) => match map.entries[i].kind.value_type() {
                Some(value_type) => Ok(value_type),
                None => Err(
                    "endpoint 0x"@ + text::hex(endpoint_id as nat, 4) + " ("@ + map.entries[i].path
                        + ") is declared \""@ + map.entries[i].raw_type
                        + "\" and cannot be written"@,
                ),
            },
        },
    }
}

/// The declared type of the endpoint that is to be written.
pub fn find_write_target(map: Option<&EndpointMap>, endpoint_id: u16) -> (res: Result<
    ValueType,
    String,
>)
    ensures
        ({
            let target = write_target(
                match map {
                    Some(map) => Some(map@),
                    None => None,
                },
                endpoint_id,
            );
            match res {
                Ok(value_type) => target == Ok::<ValueType, Seq<char>>(value_type),
                Err(message) => target == Err::<ValueType, Seq<char>>(message@),
            }
        }),
{
    let map: &EndpointMap = match map {
        None => {
            return Err(
                "write-param needs the device's endpoint table: drop --no-endpoint-map so the declared value width is known".to_owned(),
            );
        },
        Some(map) => map,
    };
    let mut message: String = "endpoint 0x".to_owned();
    push_hex(&mut message, endpoint_id as u64, 4);
    match map.get(endpoint_id) {
        None => {
            message.append(" is not in the device's endpoint table");
            Err(message)
        },
        Some(entry) => match entry.value_type() {
            Some(value_type) => Ok(value_type),
            None => {
                message.append(" (");
                message.append(entry.path.as_str());
                message.append(") is declared \"");
                message.append(entry.raw_type.as_str());
                message.append("\" and cannot be written");
                Err(message)
            },
        },
    }
}

/// Whether a text ends with another.
pub open spec fn ends_in(s: Seq<char>, end: Seq<char>) -> bool {
    s.len() >= end.len() && s.skip(s.len() - end.len()) == end
}

fn ends_with(s: &str, end: &str) -> (res: bool)
    ensures
        res == ends_in(s@, end@),
{
    let len: usize = chars_of(s).len();
    let tail: usize = chars_of(end).len();
    if len < tail {
        return false;
    }
    assert(s@.subrange(len - tail, len as int) =~= s@.skip(len - tail));
    same_text(s.substring_char(len - tail, len), end)
}

/// What a read-back says of a write, as a line for the user or an error.
///
/// `requested_state` is consumed by the device the moment it is written, so it never reads
/// back as itself; that is noted and is no error.
pub open spec fn verdict(
    endpoint_id: u16,
    path: Seq<char>,
    requested: ParamValue,
    requested_float: Seq<char>,
    read_back: Option<ParamValue>,
    actual_float: Seq<char>,
) -> Result<Seq<char>, Seq<char>> {
    match read_back {
        None => Err(
            "endpoint 0x"@ + text::hex(endpoint_id as nat, 4)
                + " write was acknowledged but could not be read back; treat it as unverified"@,
        ),
        Some(actual) => if actual.equals(requested) {
            Ok("  verified: the device reports the requested value"@)
        } else if ends_in(path, "requested_state"@) {
            Ok(
                "  note: the device consumed this write before it could be read back (it reports "@
                    + actual.shown(actual_float)
                    + "); check its effect through axis0.current_state"@,
            )
        } else {
            Err(
                "read-back mismatch on endpoint 0x"@ + text::hex(endpoint_id as nat, 4)
                    + ": requested "@ + requested.shown(requested_float) + ", device reports "@
                    + actual.shown(actual_float),
            )
        },
    }
}

/// Compare a write with its read-back; the float texts are those of the two values.
pub fn write_verdict(
    endpoint_id: u16,
    path: &str,
    requested: ParamValue,
    requested_float: &str,
    read_back: Option<ParamValue>,
    actual_float: &str,
) -> (res: Result<String, String>)
    ensures
        ({
            let said = verdict(
                endpoint_id,
                path@,
                requested,
                requested_float@,
                read_back,
                actual_float@,
            );
            match res {
                Ok(line) => said == Ok::<Seq<char>, Seq<char>>(line@),
                Err(message) => said == Err::<Seq<char>, Seq<char>>(message@),
            }
        }),
{
    match read_back {
        None => {
            let mut message: String = "endpoint 0x".to_owned();
            push_hex(&mut message, endpoint_id as u64, 4);
            message.append(
                " write was acknowledged but could not be read back; treat it as unverified",
            );
            Err(message)
        },
        Some(actual) => {
            if actual.same_value(requested) {
                return Ok("  verified: the device reports the requested value".to_owned());
            }
            if ends_with(path, "requested_state") {
                let mut line: String =
                    "  note: the device consumed this write before it could be read back (it reports ".to_owned();
                line.append(actual.to_text(actual_float).as_str());
                line.append("); check its effect through axis0.current_state");
                return Ok(line);
            }
            let mut message: String = "read-back mismatch on endpoint 0x".to_owned();
            push_hex(&mut message, endpoint_id as u64, 4);
            message.append(": requested ");
            message.append(requested.to_text(requested_float).as_str());
            message.append(", device reports ");
            message.append(actual.to_text(actual_float).as_str());
            Err(message)
        },
    }
}

/// A write is reported as verified only if the device reports an equal value; a value that
/// differs is an error, except on an endpoint that consumes what is written.
pub proof fn law_mismatches_are_never_reported_as_success(
    endpoint_id: u16,
    path: Seq<char>,
    requested: ParamValue,
    requested_float: Seq<char>,
    read_back: Option<ParamValue>,
    actual_float: Seq<char>,
)
    requires
        !ends_in(path, "requested_state"@),
    ensures
        verdict(
            endpoint_id,
            path,
            requested,
            requested_float,
            read_back,
            actual_float,
        ) is Ok <==> (read_back matches Some(actual) && actual.equals(requested)),
{
}

/// Why a scan does not start, when it does not.
pub fn check_scan_range(start_id: u16, end_id: u16) -> (res: Result<(), String>)
    ensures
        match res {
            Ok(_) => start_id <= end_id,
            Err(message) => end_id < start_id && message@ == "--end-id 0x"@ + text::hex(
                end_id as nat,
                2,
            ) + " is below --start-id 0x"@ + text::hex(start_id as nat, 2),
        },
{
    if end_id < start_id {
        let mut message: String = "--end-id 0x".to_owned();
        push_hex(&mut message, end_id as u64, 2);
        message.append(" is below --start-id 0x");
        push_hex(&mut message, start_id as u64, 2);
        return Err(message);
    }
    Ok(())
}

/// Refuse a keep-alive period of zero.
pub fn check_keep_alive(period_ms: u64) -> (res: Result<(), String>)
    ensures
        match res {
            Ok(_) => period_ms > 0,
            Err(message) => period_ms == 0 && message@
                == "--keep-alive-ms must be greater than 0"@,
        },
{
    if period_ms == 0 {
        return Err("--keep-alive-ms must be greater than 0".to_owned());
    }
    Ok(())
}

/// The name of a bit of the axis error.
pub open spec fn error_bit(index: nat) -> Seq<char> {
    if index == 20 {
        "CAN_BUS_FAILED"@
    } else {
        "bit "@ + text::dec(index)
    }
}

/// The names of the bits of an axis error, the lowest first; `index` is the lowest bit.
pub open spec fn error_bits(error: nat, index: nat, first: bool) -> Seq<char>
    decreases error,
{
    if error == 0 {
        Seq::empty()
    } else if error % 2 == 1 {
        (if first {
            ""@
        } else {
            ", "@
        }) + error_bit(index) + error_bits(error / 2, index + 1, false)
    } else {
        error_bits(error / 2, index + 1, first)
    }
}

fn push_error_bits(out: &mut String, error: u64, index: u64, first: bool)
    requires
        index + error <= u64::MAX,
    ensures
        final(out)@ == old(out)@ + error_bits(error as nat, index as nat, first),
    decreases error,
{
    if error == 0 {
        assert(out@ =~= old(out)@ + error_bits(0, index as nat, first));
        return ;
    }
    let odd: bool = error % 2 == 1;
    if odd {
        out.append(if first { "" } else { ", " });
        if index == 20 {
            out.append("CAN_BUS_FAILED");
        } else {
            out.append("bit ");
            push_dec(out, index);
        }
    }
    push_error_bits(out, error / 2, index + 1, first && !odd);
    assert(out@ =~= old(out)@ + error_bits(error as nat, index as nat, first));
}

/// Name of the endpoint that holds the timeout of the bus watchdog.
pub open spec fn break_timeout_name() -> Seq<char> {
    "can.config.break_timeout"@
}

/// Name of the endpoint that holds the error of the axis.
pub open spec fn axis_error_name() -> Seq<char> {
    "axis0.error"@
}

/// The id of a named endpoint, if there is a map that has it.
pub open spec fn named_id(map: Option<MapView>, name: Seq<char>) -> Option<u16> {
    match map {
        Some(map) => match endpoint_map::resolved(map, name) {
            Ok(i) => Some(map.entries[i].endpoint_id),
            Err(_) => None,
        },
        None => None,
    }
}

fn find_named(map: Option<&EndpointMap>, name: &str) -> (res: Option<u16>)
    ensures
        res == named_id(
            match map {
                Some(map) => Some(map@),
                None => None,
            },
            name@,
        ),
{
    match map {
        Some(map) => match map.resolve(name) {
            Ok(entry) => Some(entry.endpoint_id),
            Err(_) => None,
        },
        None => None,
    }
}

/// The endpoints that are read before a control loop starts: the timeout of the bus watchdog
/// and the error of the axis, as far as the device's own table has them.
pub fn preflight_endpoints(map: Option<&EndpointMap>) -> (res: (Option<u16>, Option<u16>))
    ensures
        ({
            let map = match map {
                Some(map) => Some(map@),
                None => None,
            };
            res == (named_id(map, break_timeout_name()), named_id(map, axis_error_name()))
        }),
{
    (find_named(map, "can.config.break_timeout"), find_named(map, "axis0.error"))
}

/// The number in a value of an unsigned type.
pub open spec fn unsigned_in(value: Option<ParamValue>) -> Option<u64> {
    match value {
        Some(ParamValue::U8(v)) => Some(v as u64),
        Some(ParamValue::U16(v)) => Some(v as u64),
        Some(ParamValue::U32(v)) => Some(v as u64),
        Some(ParamValue::U64(v)) => Some(v),
        _ => None,
    }
}

fn read_unsigned(value: Option<ParamValue>) -> (res: Option<u64>)
    ensures
        res == unsigned_in(value),
{
    match value {
        Some(ParamValue::U8(v)) => Some(v as u64),
        Some(ParamValue::U16(v)) => Some(v as u64),
        Some(ParamValue::U32(v)) => Some(v as u64),
        Some(ParamValue::U64(v)) => Some(v),
        _ => None,
    }
}

/// What [`check_preflight`] is given of the values of [`preflight_endpoints`]: the numbers in
/// them, whatever their width; nothing for a value that could not be read or is no unsigned
/// number.
pub fn preflight_values(break_timeout: Option<ParamValue>, axis_error: Option<ParamValue>) -> (res:
    (Option<u64>, Option<u64>))
    ensures
        res == (unsigned_in(break_timeout), unsigned_in(axis_error)),
{
    (read_unsigned(break_timeout), read_unsigned(axis_error))
}

/// What is known before a control loop starts: whether it may start, with a note, or not.
///
/// Both values are read from the device; `None` means that they could not be.
pub open spec fn preflight(loop_ms: u64, break_timeout_ms: Option<u64>, axis_error: Option<u64>) ->
    Result<Option<Seq<char>>, Seq<char>> {
    if break_timeout_ms is Some && break_timeout_ms->0 != 0 && loop_ms >= break_timeout_ms->0 {
        Err(
            "--loop-ms "@ + text::dec(loop_ms as nat)
                + " is not below can.config.break_timeout ("@ + text::dec(
                break_timeout_ms->0 as nat,
            )
                + " ms), so the device would trip its bus watchdog; lower --loop-ms or run --mode write-param --endpoint break_timeout --value 0 --yes"@,
        )
    } else if axis_error is Some && axis_error->0 != 0 {
        Err(
            "axis0.error is 0x"@ + text::hex(axis_error->0 as nat, 8) + " ("@ + error_bits(
                axis_error->0 as nat,
                0,
                true,
            )
                + "): the device refuses closed-loop control; set break_timeout to 0, send StopMotor and clear the error, or run --mode reset --yes"@,
        )
    } else if break_timeout_ms is Some && break_timeout_ms->0 != 0 {
        Ok(
            Some(
                "note: can.config.break_timeout is "@ + text::dec(break_timeout_ms->0 as nat)
                    + " ms; connecting may already have taken longer, which latches a bus failure"@,
            ),
        )
    } else {
        Ok(None)
    }
}

/// Check what the device says before a control loop starts.
///
/// The bus watchdog trips when control frames come slower than its timeout, and a latched
/// error lets a loop run without the axis ever moving; both are refused.
pub fn check_preflight(
    loop_ms: u64,
    break_timeout_ms: Option<u64>,
    axis_error: Option<u64>,
) -> (res: Result<Option<String>, String>)
    ensures
        match res {
            Ok(note) => preflight(loop_ms, break_timeout_ms, axis_error) == Ok::<
                Option<Seq<char>>,
                Seq<char>,
            >(
                match note {
                    Some(line) => Some(line@),
                    None => None,
                },
            ),
            Err(message) => preflight(loop_ms, break_timeout_ms, axis_error) == Err::<
                Option<Seq<char>>,
                Seq<char>,
            >(message@),
        },
{
    let limit: u64 = match break_timeout_ms {
        Some(limit) => limit,
        None => 0,
    };
    if limit != 0 && loop_ms >= limit {
        let mut message: String = "--loop-ms ".to_owned();
        push_dec(&mut message, loop_ms);
        message.append(" is not below can.config.break_timeout (");
        push_dec(&mut message, limit);
        message.append(
            " ms), so the device would trip its bus watchdog; lower --loop-ms or run --mode write-param --endpoint break_timeout --value 0 --yes",
        );
        return Err(message);
    }
    if let Some(error) = axis_error {
        if error != 0 {
            let mut message: String = "axis0.error is 0x".to_owned();
            push_hex(&mut message, error, 8);
            message.append(" (");
            push_error_bits(&mut message, error, 0, true);
            message.append(
                "): the device refuses closed-loop control; set break_timeout to 0, send StopMotor and clear the error, or run --mode reset --yes",
            );
            return Err(message);
        }
    }
    if limit != 0 {
        let mut line: String = "note: can.config.break_timeout is ".to_owned();
        push_dec(&mut line, limit);
        line.append(
            " ms; connecting may already have taken longer, which latches a bus failure",
        );
        return Ok(Some(line));
    }
    Ok(None)
}

/// A control loop never starts with a period that the bus watchdog does not tolerate, nor on
/// an axis with a latched error; otherwise it starts.
pub proof fn law_control_loops_start_only_when_they_can_work(
    loop_ms: u64,
    break_timeout_ms: Option<u64>,
    axis_error: Option<u64>,
)
    ensures
        preflight(loop_ms, break_timeout_ms, axis_error) is Ok <==> (break_timeout_ms matches Some(
            limit,
        ) ==> limit == 0 || loop_ms < limit) && (axis_error matches Some(error) ==> error == 0),
{
}

/// The time to wait for a parameter when a caller asks for `timeout_ms`: never less than the
/// default.
pub fn param_timeout_ms(timeout_ms: u32) -> (res: u64)
    ensures
        res == (if timeout_ms < 200 {
            200int
        } else {
            timeout_ms as int
        }),
        res >= DEFAULT_PARAM_TIMEOUT_MS,
        res >= timeout_ms,
        res == DEFAULT_PARAM_TIMEOUT_MS || res == timeout_ms,
{
    if timeout_ms < 200 {
        200
    } else {
        timeout_ms as u64
    }
}

/// Each name stands for the mode that sends what the name says, and no other text names a mode.
pub proof fn law_modes_do_what_their_name_says(name: Seq<char>)
    ensures
        ({
            let mode = mode_named(name);
            let sends = messages_of(mode->0);
            &&& name == "scan"@ <==> mode == Some(Mode::Scan)
            &&& name == "status"@ <==> mode == Some(Mode::Status)
            &&& name == "mit"@ <==> mode == Some(Mode::Mit)
            &&& name == "pos"@ <==> mode == Some(Mode::Pos)
            &&& name == "vel"@ <==> mode == Some(Mode::Vel)
            &&& name == "torque"@ <==> mode == Some(Mode::Torque)
            &&& name == "enable"@ <==> mode == Some(Mode::Enable)
            &&& name == "disable"@ <==> mode == Some(Mode::Disable)
            &&& name == "estop"@ <==> mode == Some(Mode::Estop)
            &&& name == "clear-error"@ || name == "clear-fault"@ <==> mode == Some(Mode::ClearError)
            &&& name == "set-zero"@ <==> mode == Some(Mode::SetZero)
            &&& name == "read-param"@ <==> mode == Some(Mode::ReadParam)
            &&& name == "write-param"@ <==> mode == Some(Mode::WriteParam)
            &&& name == "find-endpoint"@ <==> mode == Some(Mode::FindEndpoint)
            &&& name == "endpoint-map"@ <==> mode == Some(Mode::EndpointMap)
            &&& name == "monitor"@ <==> mode == Some(Mode::Monitor)
            &&& name == "keep-alive"@ <==> mode == Some(Mode::KeepAlive)
            &&& name == "reset"@ <==> mode == Some(Mode::Reset)
            &&& name == "scan"@ ==> sends == seq![MsgType::QueryStatus]
            &&& name == "status"@ ==> sends == seq![
                MsgType::QueryStatus,
                MsgType::QueryPosVel,
                MsgType::QueryDeviceInfo,
            ]
            &&& name == "mit"@ ==> sends == seq![
                MsgType::StartMotor,
                MsgType::MitControl,
                MsgType::StopMotor,
            ]
            &&& name == "pos"@ ==> sends == seq![
                MsgType::StartMotor,
                MsgType::PosControl,
                MsgType::StopMotor,
            ]
            &&& name == "vel"@ ==> sends == seq![
                MsgType::StartMotor,
                MsgType::VelControl,
                MsgType::StopMotor,
            ]
            &&& name == "torque"@ ==> sends == seq![
                MsgType::StartMotor,
                MsgType::TorqueControl,
                MsgType::StopMotor,
            ]
            &&& name == "enable"@ ==> sends == seq![MsgType::StartMotor]
            &&& name == "disable"@ ==> sends == seq![MsgType::StopMotor]
            &&& name == "estop"@ ==> sends == seq![MsgType::Estop]
            &&& name == "clear-error"@ || name == "clear-fault"@ ==> sends == seq![
                MsgType::ClearErrors,
            ]
            &&& name == "set-zero"@ ==> sends == seq![MsgType::SetZero]
            &&& name == "reset"@ ==> sends == seq![MsgType::ResetDevice]
            &&& name == "read-param"@ ==> sends == seq![MsgType::ParamRead]
            &&& name == "write-param"@ ==> sends == seq![
                MsgType::ParamRead,
                MsgType::ParamWrite,
                MsgType::ParamRead,
            ]
            &&& name == "keep-alive"@ ==> sends == seq![MsgType::QueryStatus, MsgType::QueryPosVel]
            &&& name == "monitor"@ || name == "find-endpoint"@ || name == "endpoint-map"@
                ==> sends.len() == 0
        }),
{
    lemma_mode_names();
}

proof fn lemma_mode_names()
    ensures
        "mit"@ != "pos"@ && "mit"@ != "vel"@ && "pos"@ != "vel"@,
        "scan"@.len() == 4 && "status"@.len() == 6 && "mit"@.len() == 3 && "pos"@.len() == 3
            && "vel"@.len() == 3 && "torque"@.len() == 6 && "enable"@.len() == 6 && "disable"@.len()
            == 7 && "estop"@.len() == 5 && "clear-error"@.len() == 11 && "clear-fault"@.len() == 11
            && "set-zero"@.len() == 8 && "read-param"@.len() == 10 && "write-param"@.len() == 11
            && "find-endpoint"@.len() == 13 && "endpoint-map"@.len() == 12 && "monitor"@.len() == 7
            && "keep-alive"@.len() == 10 && "reset"@.len() == 5,
        "status"@ != "torque"@ && "status"@ != "enable"@ && "torque"@ != "enable"@,
        "disable"@ != "monitor"@ && "estop"@ != "reset"@ && "read-param"@ != "keep-alive"@,
        "clear-error"@ != "write-param"@ && "clear-fault"@ != "write-param"@,
{
    reveal_strlit("scan");
    reveal_strlit("status");
    reveal_strlit("mit");
    reveal_strlit("pos");
    reveal_strlit("vel");
    reveal_strlit("torque");
    reveal_strlit("enable");
    reveal_strlit("disable");
    reveal_strlit("estop");
    reveal_strlit("clear-error");
    reveal_strlit("clear-fault");
    reveal_strlit("set-zero");
    reveal_strlit("read-param");
    reveal_strlit("write-param");
    reveal_strlit("find-endpoint");
    reveal_strlit("endpoint-map");
    reveal_strlit("monitor");
    reveal_strlit("keep-alive");
    reveal_strlit("reset");
    assert("mit"@[0] != "pos"@[0] && "mit"@[0] != "vel"@[0] && "pos"@[0] != "vel"@[0]);
    assert("status"@[0] != "torque"@[0] && "status"@[0] != "enable"@[0] && "torque"@[0]
        != "enable"@[0]);
    assert("disable"@[0] != "monitor"@[0] && "estop"@[0] != "reset"@[0]);
    assert("read-param"@[0] != "keep-alive"@[0]);
    assert("clear-error"@[0] != "write-param"@[0] && "clear-fault"@[0] != "write-param"@[0]);
}

/// How a session goes by its mode: every mode but scan, monitor and reset loads the table, or
/// warms the link up where it is told not to load it, except for an emergency stop, which then
/// goes out at once; every mode but enable, scan, status, monitor and reset ends with a stop.
pub proof fn law_sessions_go_by_their_mode(mode: Mode, no_endpoint_map: bool)
    ensures
        ({
            let session = session_of(mode, no_endpoint_map);
            &&& session.load_map <==> !no_endpoint_map && mode != Mode::Scan && mode
                != Mode::Monitor && mode != Mode::Reset
            &&& session.warm_up <==> no_endpoint_map && mode != Mode::Scan && mode != Mode::Monitor
                && mode != Mode::Reset && mode != Mode::Estop
            &&& session.stop_on_exit <==> mode != Mode::Enable && mode != Mode::Scan && mode
                != Mode::Status && mode != Mode::Monitor && mode != Mode::Reset
        }),
{
}

/// A mode runs without a confirmation unless it changes the zero position or the configuration,
/// or restarts the device; a confirmation lets every mode run.
pub proof fn law_lasting_changes_need_a_confirmation(mode: Mode, yes: bool)
    ensures
        unconfirmed(mode, yes) is Some <==> !yes && (mode == Mode::SetZero || mode
            == Mode::WriteParam || mode == Mode::Reset),
{
}

/// The endpoint of a request is that of `--endpoint`, else that of `--param-id`, as written;
/// without either there is none. A write also needs a value and a confirmation.
pub proof fn law_requests_name_an_endpoint(args: Map<Seq<char>, Seq<char>>)
    ensures
        endpoint_option(args) is Ok <==> args.dom().contains("endpoint"@) || args.dom().contains(
            "param-id"@,
        ),
        endpoint_option(args) matches Ok(spec) ==> spec == if args.dom().contains("endpoint"@) {
            args["endpoint"@]
        } else {
            args["param-id"@]
        },
        write_request(args) is Ok <==> endpoint_option(args) is Ok && args.dom().contains("yes"@)
            && (args.dom().contains("value"@) || args.dom().contains("raw-bytes"@)),
        write_request(args) matches Ok(spec) ==> endpoint_option(args) == Ok::<
            Seq<char>,
            Seq<char>,
        >(spec),
{
}

/// With a table, an endpoint is what the table resolves; without one, only a number of 16 bits
/// stands for an endpoint, and for itself.
pub proof fn law_without_a_table_only_numbers_count(map: MapView, spec: Seq<char>, n: nat)
    ensures
        endpoint_id_of(None, spec) is Ok <==> endpoint_map::id_in_text(spec) is Id,
        n < 0x1_0000 ==> endpoint_id_of(None, text::dec(n)) == Ok::<u16, Seq<char>>(n as u16),
        n < 0x1_0000 ==> endpoint_id_of(None, seq!['0', 'x'] + text::hex(n, 4)) == Ok::<
            u16,
            Seq<char>,
        >(n as u16),
        match endpoint_map::resolved(map, spec) {
            Ok(i) => endpoint_id_of(Some(map), spec) == Ok::<u16, Seq<char>>(
                map.entries[i].endpoint_id,
            ),
            Err(fault) => endpoint_id_of(Some(map), spec) == Err::<u16, Seq<char>>(fault.text),
        },
{
    endpoint_map::law_ids_are_read_in_both_bases(n, 4, 'x');
}

/// The type of a write is the one that the table declares for the first endpoint with the id;
/// without a table, and for an endpoint that is missing or no value, there is none.
pub proof fn law_writes_take_the_declared_type(map: MapView, endpoint_id: u16, i: int)
    requires
        0 <= i < map.entries.len(),
        map.entries[i].endpoint_id == endpoint_id,
        forall|k: int| 0 <= k < i ==> (#[trigger] map.entries[k]).endpoint_id != endpoint_id,
    ensures
        match map.entries[i].kind {
            endpoint_map::EndpointKind::Value(declared) => write_target(Some(map), endpoint_id)
                == Ok::<ValueType, Seq<char>>(declared),
            _ => write_target(Some(map), endpoint_id) is Err,
        },
        write_target(None, endpoint_id) is Err,
{
    endpoint_map::law_repeated_ids_keep_the_first_occurrence(map.entries, endpoint_id);
    let at = endpoint_map::id_position(map.entries, endpoint_id);
    assert(map.entries[i].endpoint_id == endpoint_id);
    if at->0 < i {
        assert(map.entries[at->0].endpoint_id == endpoint_id);
    }
}

/// Without the endpoint in the table there is no type to write.
pub proof fn law_missing_endpoints_are_not_written(map: MapView, endpoint_id: u16)
    requires
        forall|k: int|
            0 <= k < map.entries.len() ==> (#[trigger] map.entries[k]).endpoint_id != endpoint_id,
    ensures
        write_target(Some(map), endpoint_id) is Err,
{
    endpoint_map::law_repeated_ids_keep_the_first_occurrence(map.entries, endpoint_id);
}

/// Whether a value is the integer `n` of a type.
pub open spec fn is_integer(value: ParamValue, declared: ValueType, n: int) -> bool {
    match (declared, value) {
        (ValueType::U8, ParamValue::U8(v)) => v == n,
        (ValueType::U16, ParamValue::U16(v)) => v == n,
        (ValueType::U32, ParamValue::U32(v)) => v == n,
        (ValueType::U64, ParamValue::U64(v)) => v == n,
        (ValueType::I8, ParamValue::I8(v)) => v == n,
        (ValueType::I16, ParamValue::I16(v)) => v == n,
        (ValueType::I32, ParamValue::I32(v)) => v == n,
        (ValueType::I64, ParamValue::I64(v)) => v == n,
        _ => false,
    }
}

/// Whether an integer is one of a type.
pub open spec fn in_type(n: int, declared: ValueType) -> bool {
    match declared {
        ValueType::U8 => 0 <= n <= u8::MAX,
        ValueType::U16 => 0 <= n <= u16::MAX,
        ValueType::U32 => 0 <= n <= u32::MAX,
        ValueType::U64 => 0 <= n <= u64::MAX,
        ValueType::I8 => i8::MIN <= n <= i8::MAX,
        ValueType::I16 => i16::MIN <= n <= i16::MAX,
        ValueType::I32 => i32::MIN <= n <= i32::MAX,
        ValueType::I64 => i64::MIN <= n <= i64::MAX,
        _ => false,
    }
}

/// An integer that is written in decimal notation, with white space around it or a plus before
/// it or neither, is read as itself where the declared type holds it, and is refused where it
/// does not.
pub proof fn law_integers_are_read_as_themselves(
    n: int,
    declared: ValueType,
    float: Option<u64>,
    written: Seq<char>,
)
    requires
        !(declared is F32) && !(declared is F64) && !(declared is Bool),
        text::trimmed(written) == text::dec_int(n) || (n >= 0 && text::trimmed(written) == seq!['+']
            + text::dec(n as nat)),
    ensures
        value_in(written, declared, float) is Ok <==> in_type(n, declared),
        value_in(written, declared, float) matches Ok(value) ==> is_integer(value, declared, n),
{
    let word = text::trimmed(written);
    let size: nat = if n < 0 {
        (-n) as nat
    } else {
        n as nat
    };
    endpoint_map::law_written_numbers_are_read_back(size, 0);
    text::law_only_negative_numbers_have_a_sign(size);
    let digits = text::dec(size);
    if n < 0 {
        assert(word[0] == '-');
        assert(word.skip(1) =~= digits);
        if !is_signed(declared) {
            assert(!endpoint_map::is_digit_of(word[0], 10));
        }
    } else if word == seq!['+'] + digits {
        assert(word[0] == '+');
        assert(word.skip(1) =~= digits);
    } else {
        assert(word == digits);
    }
}

/// Only decimal numbers are read as integers: a text that is accepted is an optional sign, a minus
/// only for a signed type, and decimal digits.
pub proof fn law_only_integers_are_read_as_integers(
    declared: ValueType,
    float: Option<u64>,
    written: Seq<char>,
)
    requires
        !(declared is F32) && !(declared is F64) && !(declared is Bool),
        value_in(written, declared, float) is Ok,
    ensures
        ({
            let word = text::trimmed(written);
            let signed = declared is I8 || declared is I16 || declared is I32 || declared is I64;
            let from: int = if word.len() > 0 && (word[0] == '+' || (signed && word[0] == '-')) {
                1
            } else {
                0
            };
            &&& from < word.len()
            &&& forall|i: int| from <= i < word.len() ==> '0' <= #[trigger] word[i] <= '9'
        }),
{
    let word = text::trimmed(written);
    let digits = unsigned_part(word, is_signed(declared));
    assert(endpoint_map::all_digits(digits, 10));
    let from: int = word.len() - digits.len();
    assert forall|i: int| from <= i < word.len() implies '0' <= #[trigger] word[i] <= '9' by {
        assert(endpoint_map::is_digit_of(digits[i - from], 10));
    }
}

/// A truth value is written `true` or `1`, `false` or `0`; letters may be of either case, and
/// nothing else is one.
pub proof fn law_truth_values_are_words(written: Seq<char>, float: Option<u64>)
    ensures
        ({
            let word = text::trimmed(written);
            let read = value_in(written, ValueType::Bool, float);
            &&& word == "true"@ || word == "1"@ ==> read == Ok::<ParamValue, Seq<char>>(
                ParamValue::Bool(true),
            )
            &&& word == "false"@ || word == "0"@ ==> read == Ok::<ParamValue, Seq<char>>(
                ParamValue::Bool(false),
            )
            &&& word == "TRUE"@ || word == "True"@ ==> read == Ok::<ParamValue, Seq<char>>(
                ParamValue::Bool(true),
            )
            &&& word == "FALSE"@ || word == "False"@ ==> read == Ok::<ParamValue, Seq<char>>(
                ParamValue::Bool(false),
            )
            &&& read is Ok ==> word.len() == 1 || word.len() == 4 || word.len() == 5
            &&& read is Ok && word.len() == 4 ==> read->Ok_0 == ParamValue::Bool(true) && (word[0]
                == 't' || word[0] == 'T') && (word[1] == 'r' || word[1] == 'R') && (word[2] == 'u'
                || word[2] == 'U') && (word[3] == 'e' || word[3] == 'E')
            &&& read is Ok && word.len() == 5 ==> read->Ok_0 == ParamValue::Bool(false) && (word[0]
                == 'f' || word[0] == 'F') && (word[1] == 'a' || word[1] == 'A') && (word[2] == 'l'
                || word[2] == 'L') && (word[3] == 's' || word[3] == 'S') && (word[4] == 'e'
                || word[4] == 'E')
            &&& read is Ok && word.len() == 1 ==> (word[0] == '1' || word[0] == '0') && read->Ok_0
                == ParamValue::Bool(word[0] == '1')
        }),
{
    reveal_strlit("true");
    reveal_strlit("TRUE");
    reveal_strlit("True");
    reveal_strlit("false");
    reveal_strlit("FALSE");
    reveal_strlit("False");
    reveal_strlit("1");
    reveal_strlit("0");
    let word = text::trimmed(written);
    if is_word(word, "true"@) {
        assert(is_letter(word[0], "true"@[0]) && is_letter(word[1], "true"@[1]) && is_letter(
            word[2],
            "true"@[2],
        ) && is_letter(word[3], "true"@[3]));
    }
    if is_word(word, "false"@) {
        assert(is_letter(word[0], "false"@[0]) && is_letter(word[1], "false"@[1]) && is_letter(
            word[2],
            "false"@[2],
        ) && is_letter(word[3], "false"@[3]) && is_letter(word[4], "false"@[4]));
    }
    if is_word(word, "1"@) {
        assert(is_letter(word[0], "1"@[0]));
    }
    if is_word(word, "0"@) {
        assert(is_letter(word[0], "0"@[0]));
    }
    if word == "0"@ || word == "false"@ || word == "FALSE"@ || word == "False"@ {
        assert(!is_letter(word[0], '1') && !is_letter(word[0], 't'));
        if is_word(word, "1"@) {
            assert(is_letter(word[0], "1"@[0]));
        }
    }
}

/// A float is the number that was handed in, at its width; without a number the text is refused.
pub proof fn law_floats_are_taken_over(written: Seq<char>, bits: u64)
    ensures
        bits <= u32::MAX ==> value_in(written, ValueType::F32, Some(bits)) == Ok::<
            ParamValue,
            Seq<char>,
        >(ParamValue::F32(bits as u32)),
        value_in(written, ValueType::F64, Some(bits)) == Ok::<ParamValue, Seq<char>>(
            ParamValue::F64(bits),
        ),
        value_in(written, ValueType::F32, None) is Err,
        value_in(written, ValueType::F64, None) is Err,
{
}

/// What is shown of an integer or a truth value is read back as that value.
pub proof fn law_shown_values_are_read_back(value: ParamValue, number: Seq<char>, float: Option<u64>)
    requires
        !(value is F32) && !(value is F64),
    ensures
        value_in(value.shown(number), value.type_of(), float) == Ok::<ParamValue, Seq<char>>(value),
{
    let shown = value.shown(number);
    let n: int = match value {
        ParamValue::U8(v) => v as int,
        ParamValue::U16(v) => v as int,
        ParamValue::U32(v) => v as int,
        ParamValue::U64(v) => v as int,
        ParamValue::I8(v) => v as int,
        ParamValue::I16(v) => v as int,
        ParamValue::I32(v) => v as int,
        ParamValue::I64(v) => v as int,
        _ => 0,
    };
    if let ParamValue::Bool(v) = value {
        reveal_strlit("true");
        reveal_strlit("false");
        text::law_trimmed_texts_stay(shown);
        law_truth_values_are_words(shown, float);
    } else {
        let size: nat = if n < 0 {
            (-n) as nat
        } else {
            n as nat
        };
        values::law_values_are_shown_as_numbers(value, number);
        text::law_only_negative_numbers_have_a_sign(size);
        endpoint_map::law_written_numbers_are_read_back(size, 0);
        let digits = text::dec(size);
        assert(endpoint_map::is_digit_of(digits[digits.len() - 1], 10));
        assert(shown.last() == digits.last());
        text::law_trimmed_texts_stay(shown);
        law_integers_are_read_as_themselves(n, value.type_of(), float, shown);
    }
}

/// White space, commas and underscores separate bytes; nothing else does.
pub proof fn law_separators_are_dropped(s: Seq<char>, c: char)
    ensures
        text::is_white_space(c) || c == ',' || c == '_' ==> kept(s.push(c)) == kept(s),
        !(text::is_white_space(c) || c == ',' || c == '_') ==> kept(s.push(c)) == kept(s).push(c),
        kept(Seq::empty()).len() == 0,
{
    assert(s.push(c).drop_last() =~= s);
}

/// A byte is two base-16 digits, the higher one first.
pub proof fn law_bytes_are_two_digits(byte: u8, pair: Seq<char>)
    ensures
        hex_pair(text::hex(byte as nat, 2)) == Some(byte),
        hex_pair(pair) is Some <==> pair.len() == 2 && endpoint_map::all_digits(pair, 16),
        hex_pair(pair) matches Some(found) ==> found == endpoint_map::number_of(pair, 16),
{
    endpoint_map::law_written_numbers_are_read_back(byte as nat, 2);
    reveal_with_fuel(text::hex, 3);
    reveal_with_fuel(endpoint_map::number_of, 3);
    let digits = text::hex(byte as nat, 2);
    assert(digits.len() == 2);
    assert(endpoint_map::is_digit_of(digits[0], 16) && endpoint_map::is_digit_of(digits[1], 16));
    assert(digits.drop_last().drop_last() =~= Seq::<char>::empty());
    if pair.len() == 2 {
        assert(pair.drop_last().drop_last() =~= Seq::<char>::empty());
        assert(pair.drop_last().last() == pair[0]);
        if endpoint_map::all_digits(pair, 16) {
            assert(endpoint_map::is_digit_of(pair[0], 16) && endpoint_map::is_digit_of(pair[1], 16));
        }
        if hex_pair(pair) is Some {
            assert forall|i: int| 0 <= i < 2 implies endpoint_map::is_digit_of(
                #[trigger] pair[i],
                16,
            ) by {
                assert(i == 0 || i == 1);
            }
        }
    }
}

/// A read-back is a success when the device reports the requested value, and on an endpoint whose
/// path ends in `requested_state`; without a read-back, and with another value on any other
/// endpoint, it is an error.
pub proof fn law_read_backs_decide_the_verdict(
    endpoint_id: u16,
    path: Seq<char>,
    requested: ParamValue,
    requested_float: Seq<char>,
    actual: ParamValue,
    actual_float: Seq<char>,
    prefix: Seq<char>,
)
    ensures
        verdict(endpoint_id, path, requested, requested_float, None, actual_float) is Err,
        actual.equals(requested) ==> verdict(
            endpoint_id,
            path,
            requested,
            requested_float,
            Some(actual),
            actual_float,
        ) is Ok,
        verdict(
            endpoint_id,
            prefix + "requested_state"@,
            requested,
            requested_float,
            Some(actual),
            actual_float,
        ) is Ok,
        !actual.equals(requested) && verdict(
            endpoint_id,
            path,
            requested,
            requested_float,
            Some(actual),
            actual_float,
        ) is Ok ==> exists|before: Seq<char>| path == #[trigger] (before + "requested_state"@),
{
    let end = "requested_state"@;
    let whole = prefix + end;
    assert(whole.skip(whole.len() - end.len()) =~= end);
    if ends_in(path, end) {
        let before = path.take(path.len() - end.len());
        assert(path =~= before + path.skip(path.len() - end.len()));
    }
}

/// The values that are checked before a control loop starts are those of the endpoints
/// `can.config.break_timeout` and `axis0.error`.
pub proof fn law_preflight_reads_the_watchdog_and_the_error(map: MapView)
    ensures
        named_id(Some(map), break_timeout_name()) == (match endpoint_map::resolved(
            map,
            "can.config.break_timeout"@,
        ) {
            Ok(i) => Some(map.entries[i].endpoint_id),
            Err(_) => None,
        }),
        named_id(Some(map), axis_error_name()) == (match endpoint_map::resolved(map, "axis0.error"@) {
            Ok(i) => Some(map.entries[i].endpoint_id),
            Err(_) => None,
        }),
        named_id(None, break_timeout_name()) is None,
{
}

/// An unsigned value of any width counts as its number; nothing else counts.
pub proof fn law_unsigned_values_count_as_numbers(value: ParamValue)
    ensures
        unsigned_in(None) is None,
        unsigned_in(Some(value)) is Some <==> value is U8 || value is U16 || value is U32
            || value is U64,
        unsigned_in(Some(value)) matches Some(n) ==> n == value.code(),
{
}

/// A single bit of an axis error is shown by its number, and bit 20 as a bus failure; several bits
/// are shown one after the other, the lowest first.
pub proof fn law_error_bits_are_named(index: nat, rest: nat)
    ensures
        error_bits(0, index, true).len() == 0,
        error_bits(1, index, true) == error_bit(index),
        rest > 0 ==> error_bits(2 * rest + 1, index, true) == error_bit(index) + error_bits(
            rest,
            index + 1,
            false,
        ),
        rest > 0 ==> error_bits(2 * rest, index, true) == error_bits(rest, index + 1, true),
        rest > 0 ==> error_bits(rest, index, false) == seq![',', ' '] + error_bits(
            rest,
            index,
            true,
        ),
        error_bit(20) == "CAN_BUS_FAILED"@,
        index != 20 ==> error_bit(index) == "bit "@ + text::dec(index),
{
    reveal_with_fuel(error_bits, 2);
    reveal_strlit("");
    assert(""@ + error_bit(index) =~= error_bit(index));
    if rest > 0 {
        lemma_later_bits(rest, index);
    }
    assert(error_bit(index) + Seq::<char>::empty() =~= error_bit(index));
}

proof fn lemma_later_bits(error: nat, index: nat)
    requires
        error > 0,
    ensures
        error_bits(error, index, false) == seq![',', ' '] + error_bits(error, index, true),
    decreases error,
{
    reveal_strlit("");
    reveal_strlit(", ");
    assert(", "@ =~= seq![',', ' ']);
    if error % 2 == 1 {
        let tail = error_bits(error / 2, index + 1, false);
        assert(", "@ + error_bit(index) + tail =~= seq![',', ' '] + (""@ + error_bit(index) + tail));
    } else {
        lemma_later_bits(error / 2, index + 1);
    }
}

/// A later value of an option replaces an earlier one, and options do not touch each other.
pub proof fn law_later_options_win(pairs: Seq<(String, String)>, pair: (String, String), key: Seq<char>)
    ensures
        option_of(options(pairs.push(pair)), key) == if key == pair.0@ {
            Some(pair.1@)
        } else {
            option_of(options(pairs), key)
        },
        option_of(options(Seq::empty()), key) is None,
{
    assert(pairs.push(pair).drop_last() =~= pairs);
}

/// A control loop that starts is told of the bus watchdog exactly when it is armed.
pub proof fn law_armed_watchdogs_are_noted(
    loop_ms: u64,
    break_timeout_ms: Option<u64>,
    axis_error: Option<u64>,
)
    ensures
        preflight(loop_ms, break_timeout_ms, axis_error) matches Ok(note) ==> (note is Some <==> (
        break_timeout_ms matches Some(limit) && limit > 0)),
        preflight(loop_ms, break_timeout_ms, axis_error) matches Ok(Some(note)) ==>
            text::contains_text(note, text::dec(break_timeout_ms->0 as nat)),
{
    if let Ok(Some(note)) = preflight(loop_ms, break_timeout_ms, axis_error) {
        text::law_contained_texts_stand_between_two_others(
            note,
            text::dec(break_timeout_ms->0 as nat),
        );
        assert(note =~= "note: can.config.break_timeout is "@ + text::dec(
            break_timeout_ms->0 as nat,
        ) + " ms; connecting may already have taken longer, which latches a bus failure"@);
    }
}

/// The message for a value that is refused quotes the value without the white space around it, and
/// the one for an unknown mode quotes the mode.
pub proof fn law_refusals_quote_what_was_written(
    written: Seq<char>,
    declared: ValueType,
    float: Option<u64>,
    name: Seq<char>,
)
    ensures
        value_in(written, declared, float) matches Err(message) ==> text::contains_text(
            message,
            text::trimmed(written),
        ),
        text::contains_text(unknown_mode(name), name),
{
    let word = text::trimmed(written);
    if let Err(message) = value_in(written, declared, float) {
        text::law_contained_texts_stand_between_two_others(message, word);
        let what = message.skip(("--value "@ + word + " is not a valid "@).len() as int);
        assert(message =~= "--value "@ + word + (" is not a valid "@ + what));
    }
    text::law_contained_texts_stand_between_two_others(unknown_mode(name), name);
}

} // verus!

//! Parsed JSON endpoint descriptor.
//!
//! The device reports its own endpoint map: each endpoint is an object with a `name`, an
//! `id`, a `type` and (for values) an `access` flag, nested through `members` (objects),
//! `inputs` / `outputs` (functions) or plain arrays. Reading that map once is what lets
//! parameters be read and written for every endpoint the device has, with the type that
//! the device itself declares.

use std::collections::HashMap;

use vstd::prelude::*;
use vstd::string::*;

use crate::error;
use crate::error::MotorError;
use crate::json;
use crate::json::{find_number, find_text, Json, JsonTree};
use crate::text;
use crate::text::{
    chars_of, last_segment_is, push_dec, push_hex, same_text, text_contains, trim,
};
use crate::values;
use crate::values::{ParamValue, ValueType};

verus! {

broadcast use vstd::std_specs::hash::group_hash_axioms;

/// What an endpoint object describes.
#[derive(Debug, Clone, Copy, PartialEq, Eq, Structural)]
pub enum EndpointKind {
    /// A readable (and possibly writable) value.
    Value(ValueType),
    /// A firmware function; not readable through `PARAM_READ`.
    Function,
    /// A reference to another endpoint; not readable through `PARAM_READ`.
    EndpointRef,
    /// A nested JSON object or blob.
    Json,
    /// A kind this library does not know; `raw_type` keeps the device's text.
    Other,
}

/// Declared access of an endpoint.
#[derive(Debug, Clone, Copy, PartialEq, Eq, Structural)]
pub enum Access {
    ReadOnly,
    ReadWrite,
    /// No `access` field (functions) or an unrecognised value.
    Unknown,
}

/// The access that a descriptor `access` text declares.
pub open spec fn access_of(raw: Option<Seq<char>>) -> Access {
    match raw {
        Some(s) => if s == "r"@ {
            Access::ReadOnly
        } else if s == "rw"@ {
            Access::ReadWrite
        } else {
            Access::Unknown
        },
        None => Access::Unknown,
    }
}

/// The kind that a descriptor `type` text declares.
pub open spec fn kind_of(raw: Seq<char>) -> EndpointKind {
    if raw == "function"@ {
        EndpointKind::Function
    } else if raw == "endpoint_ref"@ {
        EndpointKind::EndpointRef
    } else if raw == "json"@ {
        EndpointKind::Json
    } else {
        match values::value_type_of(raw) {
            Some(value_type) => EndpointKind::Value(value_type),
            None => EndpointKind::Other,
        }
    }
}

impl Access {
    /// The text of an access flag.
    pub open spec fn name(self) -> Seq<char> {
        match self {
            Access::ReadOnly => "r"@,
            Access::ReadWrite => "rw"@,
            Access::Unknown => "-"@,
        }
    }

    /// The access that a descriptor `access` text declares.
    pub fn from_raw(raw: Option<&str>) -> (res: Self)
        ensures
            res == access_of(
                match raw {
                    Some(s) => Some(s@),
                    None => None,
                },
            ),
    {
        match raw {
            Some(s) => if same_text(s, "r") {
                Access::ReadOnly
            } else if same_text(s, "rw") {
                Access::ReadWrite
            } else {
                Access::Unknown
            },
            None => Access::Unknown,
        }
    }

    /// Text as it appears in the descriptor.
    pub fn label(self) -> (res: &'static str)
        ensures
            res@ == self.name(),
    {
        match self {
            Access::ReadOnly => "r",
            Access::ReadWrite => "rw",
            Access::Unknown => "-",
        }
    }

    /// Whether the device declares this endpoint as writable.
    pub fn is_writable(self) -> (res: bool)
        ensures
            res == (self == Access::ReadWrite),
    {
        self == Access::ReadWrite
    }
}

/// The label of an access flag declares that access again, `-` for an unknown one.
pub proof fn law_access_labels_are_canonical(access: Access)
    ensures
        access_of(Some(access.name())) == access,
{
    reveal_strlit("r");
    reveal_strlit("rw");
    reveal_strlit("-");
    assert("r"@.len() == 1 && "rw"@.len() == 2 && "-"@.len() == 1);
    assert("-"@[0] != "r"@[0]);
}

impl EndpointKind {
    /// The kind that a descriptor `type` text declares.
    pub fn from_raw(raw: &str) -> (res: Self)
        ensures
            res == kind_of(raw@),
    {
        if same_text(raw, "function") {
            EndpointKind::Function
        } else if same_text(raw, "endpoint_ref") {
            EndpointKind::EndpointRef
        } else if same_text(raw, "json") {
            EndpointKind::Json
        } else {
            match ValueType::from_raw(raw) {
                Some(value_type) => EndpointKind::Value(value_type),
                None => EndpointKind::Other,
            }
        }
    }

    /// The value type of a kind, when it is a value.
    pub open spec fn value_type(self) -> Option<ValueType> {
        match self {
            EndpointKind::Value(value_type) => Some(value_type),
            _ => None,
        }
    }
}

/// One endpoint of the device descriptor.
#[derive(Debug)]
pub struct EndpointEntry {
    /// Dotted path built while walking the descriptor, e.g.
    /// `axis0.motor.config.gear_ratio`.
    pub path: String,
    /// 16-bit endpoint id used by `PARAM_READ` / `PARAM_WRITE`.
    pub endpoint_id: u16,
    /// Type text exactly as reported by the device (`float`, `uint32`, `function`, ...).
    pub raw_type: String,
    /// Parsed kind, derived from `raw_type`.
    pub kind: EndpointKind,
    /// Declared access.
    pub access: Access,
}

/// The mathematical content of an [`EndpointEntry`].
pub struct EntryView {
    pub path: Seq<char>,
    pub endpoint_id: u16,
    pub raw_type: Seq<char>,
    pub kind: EndpointKind,
    pub access: Access,
}

impl View for EndpointEntry {
    type V = EntryView;

    open spec fn view(&self) -> EntryView {
        EntryView {
            path: self.path@,
            endpoint_id: self.endpoint_id,
            raw_type: self.raw_type@,
            kind: self.kind,
            access: self.access,
        }
    }
}

impl EndpointEntry {
    /// The declared value type, when this endpoint is a value.
    pub fn value_type(&self) -> (res: Option<ValueType>)
        ensures
            res == self@.kind.value_type(),
    {
        match self.kind {
            EndpointKind::Value(value_type) => Some(value_type),
            _ => None,
        }
    }
}

impl Clone for EndpointEntry {
    fn clone(&self) -> (res: Self)
        ensures
            res@ == self@,
    {
        EndpointEntry {
            path: self.path.clone(),
            endpoint_id: self.endpoint_id,
            raw_type: self.raw_type.clone(),
            kind: self.kind,
            access: self.access,
        }
    }
}

/// One typed `PARAM_READ` result together with what the device says the endpoint is.
#[derive(Debug, Clone)]
pub struct ParamReadout {
    pub endpoint_id: u16,
    /// Dotted path from the descriptor, when the map is loaded.
    pub path: Option<String>,
    /// Declared type text, e.g. `float`.
    pub declared: String,
    pub access: Access,
    pub value: ParamValue,
    /// The assembled little-endian bytes as received (possibly segmented).
    pub raw: Vec<u8>,
}

/// The content of each entry.
pub open spec fn entry_views(entries: Seq<EndpointEntry>) -> Seq<EntryView> {
    entries.map_values(|entry: EndpointEntry| entry@)
}

/// The dotted path of an object named `name` below `prefix`.
pub open spec fn joined(prefix: Seq<char>, name: Seq<char>) -> Seq<char> {
    if prefix.len() == 0 || name.len() == 0 {
        prefix + name
    } else {
        prefix + "."@ + name
    }
}

/// The text of a field, empty when there is none.
pub open spec fn text_or_empty(found: Option<Seq<char>>) -> Seq<char> {
    match found {
        Some(s) => s,
        None => Seq::empty(),
    }
}

/// The endpoint that an object itself describes: one if it carries a 16-bit `id`.
pub open spec fn own_entry(fields: Seq<(Seq<char>, JsonTree)>, path: Seq<char>) -> Seq<EntryView> {
    match json::number_field(fields, "id"@) {
        Some(id) => if id < 0x1_0000 {
            let raw_type = text_or_empty(json::text_field(fields, "type"@));
            seq![
                EntryView {
                    path,
                    endpoint_id: id as u16,
                    raw_type,
                    kind: kind_of(raw_type),
                    access: access_of(json::text_field(fields, "access"@)),
                },
            ]
        } else {
            Seq::empty()
        },
        None => Seq::empty(),
    }
}

/// Whether a field describes the object itself rather than something below it.
pub open spec fn is_own_field(key: Seq<char>) -> bool {
    key == "name"@ || key == "id"@ || key == "type"@ || key == "access"@
}

/// Every endpoint at and below `node`, in document order, with its dotted path.
pub open spec fn collect(node: JsonTree, prefix: Seq<char>) -> Seq<EntryView>
    decreases node, 0nat,
{
    match node {
        JsonTree::Array(items) => {
            proof {
                assert(decreases_to!(node => node->Array_0));
            }
            collect_items(items, prefix, items.len())
        },
        JsonTree::Object(fields) => {
            proof {
                assert(decreases_to!(node => node->Object_0));
            }
            let path = joined(prefix, text_or_empty(json::text_field(fields, "name"@)));
            own_entry(fields, path) + collect_fields(fields, path, fields.len())
        },
        _ => Seq::empty(),
    }
}

/// Every endpoint of the first `n` items of an array.
pub open spec fn collect_items(items: Seq<JsonTree>, prefix: Seq<char>, n: nat) -> Seq<EntryView>
    decreases items, n,
{
    if n == 0 || n > items.len() {
        Seq::empty()
    } else {
        collect_items(items, prefix, (n - 1) as nat) + collect(items[n - 1], prefix)
    }
}

/// Every endpoint below the first `n` fields of an object.
pub open spec fn collect_fields(
    fields: Seq<(Seq<char>, JsonTree)>,
    path: Seq<char>,
    n: nat,
) -> Seq<EntryView>
    decreases fields, n,
{
    if n == 0 || n > fields.len() {
        Seq::empty()
    } else if is_own_field(fields[n - 1].0) {
        collect_fields(fields, path, (n - 1) as nat)
    } else {
        proof {
            let pair = fields[n - 1];
            assert(decreases_to!(fields => fields[n - 1]));
            assert(decreases_to!(pair => pair.1));
        }
        collect_fields(fields, path, (n - 1) as nat) + collect(fields[n - 1].1, path)
    }
}

/// The dotted path of an object named `name` below `prefix`.
fn join_path(prefix: &str, name: &str) -> (res: String)
    ensures
        res@ == joined(prefix@, name@),
{
    let mut path: String = prefix.to_owned();
    if !same_text(prefix, "") && !same_text(name, "") {
        proof {
            reveal_strlit("");
            assert(""@ =~= Seq::<char>::empty());
            if prefix@.len() == 0 {
                assert(prefix@ =~= ""@);
            }
            if name@.len() == 0 {
                assert(name@ =~= ""@);
            }
        }
        path.append(".");
    } else {
        proof {
            reveal_strlit("");
        }
    }
    path.append(name);
    path
}

/// Walk the descriptor, collecting every object that carries an `id`.
fn collect_endpoints(node: &Json, prefix: &str, out: &mut Vec<EndpointEntry>)
    ensures
        entry_views(final(out)@) == entry_views(old(out)@) + collect(node.tree(), prefix@),
    decreases *node,
{
    match node {
        Json::Array(items) => {
            let ghost tree = node.tree()->Array_0;
            let mut i: usize = 0;
            while i < items.len()
                invariant
                    *node == Json::Array(*items),
                    i <= items@.len(),
                    tree == node.tree()->Array_0,
                    tree.len() == items@.len(),
                    entry_views(out@) == entry_views(old(out)@) + collect_items(
                        tree,
                        prefix@,
                        i as nat,
                    ),
                decreases items@.len() - i,
            {
                assert(tree[i as int] == items@[i as int].tree());
                proof {
                    assert(decreases_to!(*node => node->Array_0));
                    assert(decreases_to!(*items => items@));
                    assert(decreases_to!(items@ => items@[i as int]));
                }
                collect_endpoints(&items[i], prefix, out);
                assert(entry_views(out@) =~= entry_views(old(out)@) + collect_items(
                    tree,
                    prefix@,
                    (i + 1) as nat,
                ));
                i = i + 1;
            }
        },
        Json::Object(fields) => {
            let ghost tree = node.tree()->Object_0;
            let name: &str = match find_text(fields, "name") {
                Some(name) => name,
                None => {
                    proof {
                        reveal_strlit("");
                        assert(""@ =~= Seq::<char>::empty());
                    }
                    ""
                },
            };
            let path: String = join_path(prefix, name);
            if let Some(id) = find_number(fields, "id") {
                if id < 0x1_0000 {
                    let raw_type: &str = match find_text(fields, "type") {
                        Some(raw_type) => raw_type,
                        None => {
                            proof {
                                reveal_strlit("");
                                assert(""@ =~= Seq::<char>::empty());
                            }
                            ""
                        },
                    };
                    out.push(
                        EndpointEntry {
                            path: path.clone(),
                            endpoint_id: id as u16,
                            raw_type: raw_type.to_owned(),
                            kind: EndpointKind::from_raw(raw_type),
                            access: Access::from_raw(find_text(fields, "access")),
                        },
                    );
                }
            }
            assert(entry_views(out@) =~= entry_views(old(out)@) + own_entry(tree, path@));
            let ghost before = entry_views(old(out)@) + own_entry(tree, path@);
            let mut i: usize = 0;
            assert(before =~= before + collect_fields(tree, path@, 0));
            while i < fields.len()
                invariant
                    *node == Json::Object(*fields),
                    i <= fields@.len(),
                    tree == node.tree()->Object_0,
                    tree.len() == fields@.len(),
                    entry_views(out@) == before + collect_fields(tree, path@, i as nat),
                decreases fields@.len() - i,
            {
                let key: &str = fields[i].0.as_str();
                assert(tree[i as int] == (fields@[i as int].0@, fields@[i as int].1.tree()));
                if !(same_text(key, "name") || same_text(key, "id") || same_text(key, "type")
                    || same_text(key, "access")) {
                    proof {
                        let pair = fields@[i as int];
                        assert(decreases_to!(*node => node->Object_0));
                        assert(decreases_to!(*fields => fields@));
                        assert(decreases_to!(fields@ => fields@[i as int]));
                        assert(decreases_to!(pair => pair.1));
                    }
                    collect_endpoints(&fields[i].1, path.as_str(), out);
                    assert(entry_views(out@) =~= before + collect_fields(
                        tree,
                        path@,
                        (i + 1) as nat,
                    ));
                }
                i = i + 1;
            }
            assert(entry_views(out@) =~= entry_views(old(out)@) + collect(node.tree(), prefix@));
        },
        _ => {
            assert(entry_views(out@) =~= entry_views(old(out)@) + collect(node.tree(), prefix@));
        },
    }
}

/// How a human-written endpoint specification parses into an id.
#[derive(Debug, Clone, Copy, PartialEq, Eq, Structural)]
pub enum SpecId {
    /// A number that fits in 16 bits.
    Id(u16),
    /// A number too large to be an endpoint id: it is reported, not clamped.
    OutOfRange,
    /// Not a number, so it must be a name.
    NotAnId,
}

/// Whether `c` is a digit in base 10 or 16.
pub open spec fn is_digit_of(c: char, radix: nat) -> bool {
    ||| '0' <= c <= '9'
    ||| radix == 16 && ('a' <= c <= 'f' || 'A' <= c <= 'F')
}

/// The value of a base-16 digit.
pub open spec fn digit_value(c: char) -> nat {
    if '0' <= c <= '9' {
        (c as int - '0' as int) as nat
    } else if 'a' <= c <= 'f' {
        (c as int - 'a' as int + 10) as nat
    } else {
        (c as int - 'A' as int + 10) as nat
    }
}

/// The number that digits spell.
pub open spec fn number_of(digits: Seq<char>, radix: nat) -> nat
    decreases digits.len(),
{
    if digits.len() == 0 {
        0
    } else {
        number_of(digits.drop_last(), radix) * radix + digit_value(digits.last())
    }
}

/// Whether a text starts with `0x` or `0X`.
pub open spec fn has_hex_prefix(spec: Seq<char>) -> bool {
    spec.len() >= 2 && spec[0] == '0' && (spec[1] == 'x' || spec[1] == 'X')
}

/// The base in which a specification writes an id.
pub open spec fn id_radix(spec: Seq<char>) -> nat {
    if has_hex_prefix(spec) {
        16
    } else {
        10
    }
}

/// The digits of an id: what follows `0x`, or the whole text.
pub open spec fn id_digits(spec: Seq<char>) -> Seq<char> {
    if has_hex_prefix(spec) {
        spec.skip(2)
    } else {
        spec
    }
}

/// Whether a text is made of digits, at least one.
pub open spec fn all_digits(digits: Seq<char>, radix: nat) -> bool {
    digits.len() > 0 && forall|i: int|
        0 <= i < digits.len() ==> is_digit_of(#[trigger] digits[i], radix)
}

/// How a specification parses into an id: base 16 behind `0x`, base 10 without.
pub open spec fn id_in_text(spec: Seq<char>) -> SpecId {
    let digits = id_digits(spec);
    let radix = id_radix(spec);
    if !all_digits(digits, radix) {
        SpecId::NotAnId
    } else if number_of(digits, radix) < 0x1_0000 {
        SpecId::Id(number_of(digits, radix) as u16)
    } else {
        SpecId::OutOfRange
    }
}

/// The value of a digit in base `radix`, when `c` is one.
pub(crate) fn read_digit(c: char, radix: u64) -> (res: Option<u64>)
    requires
        radix == 10 || radix == 16,
    ensures
        match res {
            Some(d) => is_digit_of(c, radix as nat) && d == digit_value(c) && d < 16,
            None => !is_digit_of(c, radix as nat),
        },
{
    if '0' <= c && c <= '9' {
        Some(c as u64 - '0' as u64)
    } else if radix == 16 && 'a' <= c && c <= 'f' {
        Some(c as u64 - 'a' as u64 + 10)
    } else if radix == 16 && 'A' <= c && c <= 'F' {
        Some(c as u64 - 'A' as u64 + 10)
    } else {
        None
    }
}

proof fn lemma_number_grows(digits: Seq<char>, radix: nat, n: int)
    requires
        0 <= n <= digits.len(),
        radix >= 1,
        number_of(digits.take(n), radix) >= 0x1_0000,
    ensures
        number_of(digits, radix) >= 0x1_0000,
    decreases digits.len() - n,
{
    if n == digits.len() {
        assert(digits.take(n) =~= digits);
    } else {
        assert(digits.take(n + 1).drop_last() =~= digits.take(n));
        let head = number_of(digits.take(n), radix);
        assert(head * radix >= head) by (nonlinear_arith)
            requires
                radix >= 1,
                head >= 0,
        ;
        lemma_number_grows(digits, radix, n + 1);
    }
}

/// Parse `0x00F7` / `247`; a decimal number is always an id, because endpoint names never
/// consist of digits alone.
pub fn parse_endpoint_id(spec: &str) -> (res: SpecId)
    ensures
        res == id_in_text(spec@),
{
    let chars: Vec<char> = chars_of(spec);
    let len: usize = chars.len();
    let hex: bool = len >= 2 && chars[0] == '0' && (chars[1] == 'x' || chars[1] == 'X');
    let from: usize = if hex { 2 } else { 0 };
    let radix: u64 = if hex { 16 } else { 10 };
    let ghost digits = id_digits(spec@);
    if from == len {
        return SpecId::NotAnId;
    }
    let mut value: u64 = 0;
    let mut i: usize = from;
    let ghost r = radix as nat;
    assert(digits.take(0) =~= Seq::<char>::empty());
    while i < len
        invariant
            from <= i <= len,
            len == chars@.len(),
            chars@ == spec@,
            from == (if has_hex_prefix(spec@) {
                2int
            } else {
                0
            }),
            digits == id_digits(spec@),
            radix == 10 || radix == 16,
            r == radix,
            r == id_radix(spec@),
            forall|k: int| 0 <= k < i - from ==> is_digit_of(#[trigger] digits[k], r),
            value < 0x1_0000 ==> number_of(digits.take(i - from), r) == value,
            value >= 0x1_0000 ==> value == 0x1_0000 && number_of(digits, r) >= 0x1_0000,
            value <= 0x1_0000,
        decreases len - i,
    {
        assert(digits[i - from] == chars@[i as int]);
        match read_digit(chars[i], radix) {
            None => {
                assert(!is_digit_of(digits[i - from], r));
                return SpecId::NotAnId;
            },
            Some(d) => {
                if value < 0x1_0000 {
                    let next: u64 = value * radix + d;
                    proof {
                        let head = digits.take(i - from + 1);
                        assert(head.drop_last() =~= digits.take(i - from));
                        assert(head.last() == digits[i - from]);
                        assert(number_of(head, r) == next);
                        if next >= 0x1_0000 {
                            lemma_number_grows(digits, r, i - from + 1);
                        }
                    }
                    value = if next < 0x1_0000 { next } else { 0x1_0000 };
                }
            },
        }
        i = i + 1;
    }
    assert(digits.take(len - from) =~= digits);
    if value < 0x1_0000 {
        SpecId::Id(value as u16)
    } else {
        SpecId::OutOfRange
    }
}

/// What `str::to_lowercase` makes of a text.
pub uninterp spec fn lowercase(text: Seq<char>) -> Seq<char>;

/// Calls `str::to_lowercase`: the lower-case form of a text. Claimed is only that it is a
/// function of the text.
#[verifier::external_body]
fn to_lower(text: &str) -> (res: String)
    ensures
        res@ == lowercase(text@),
{
    text.to_lowercase()
}

/// The position of the first of the first `n` entries that has the id.
pub open spec fn first_with_id(entries: Seq<EntryView>, endpoint_id: u16, n: nat) -> Option<int>
    decreases n,
{
    if n == 0 || n > entries.len() {
        None
    } else {
        match first_with_id(entries, endpoint_id, (n - 1) as nat) {
            Some(i) => Some(i),
            None => if entries[n - 1].endpoint_id == endpoint_id {
                Some(n - 1)
            } else {
                None
            },
        }
    }
}

/// The position of the first entry that has the id.
pub open spec fn id_position(entries: Seq<EntryView>, endpoint_id: u16) -> Option<int> {
    first_with_id(entries, endpoint_id, entries.len())
}

/// The position of the first of the first `n` names that is `wanted`.
pub open spec fn first_named(names: Seq<Seq<char>>, wanted: Seq<char>, n: nat) -> Option<int>
    decreases n,
{
    if n == 0 || n > names.len() {
        None
    } else {
        match first_named(names, wanted, (n - 1) as nat) {
            Some(i) => Some(i),
            None => if names[n - 1] == wanted {
                Some(n - 1)
            } else {
                None
            },
        }
    }
}

/// The positions, in order, of those of the first `n` names whose last segment is `wanted`.
pub open spec fn ending_in(names: Seq<Seq<char>>, wanted: Seq<char>, n: nat) -> Seq<int>
    decreases n,
{
    if n == 0 || n > names.len() {
        Seq::empty()
    } else {
        let found = ending_in(names, wanted, (n - 1) as nat);
        if text::last_segment(names[n - 1]) == wanted {
            found.push(n - 1)
        } else {
            found
        }
    }
}

/// The positions, in order, of those of the first `n` names that contain `wanted`.
pub open spec fn containing(names: Seq<Seq<char>>, wanted: Seq<char>, n: nat) -> Seq<int>
    decreases n,
{
    if n == 0 || n > names.len() {
        Seq::empty()
    } else {
        let found = containing(names, wanted, (n - 1) as nat);
        if text::contains_text(names[n - 1], wanted) {
            found.push(n - 1)
        } else {
            found
        }
    }
}

/// The endpoints that a name stands for.
pub enum Choice {
    One(int),
    Many(Seq<int>),
    Nothing,
}

/// A list of positions as a choice.
pub open spec fn choice_of(found: Seq<int>) -> Choice {
    if found.len() == 0 {
        Choice::Nothing
    } else if found.len() == 1 {
        Choice::One(found[0])
    } else {
        Choice::Many(found)
    }
}

/// The endpoints that a name stands for among lower-case paths: an exact path first, then
/// an exact last segment, then a substring.
pub open spec fn chosen(names: Seq<Seq<char>>, wanted: Seq<char>, part: Seq<char>) -> Choice {
    match first_named(names, wanted, names.len()) {
        Some(i) => Choice::One(i),
        None => match choice_of(ending_in(names, wanted, names.len())) {
            Choice::Nothing => choice_of(containing(names, part, names.len())),
            found => found,
        },
    }
}

/// The listing of the first `n` of the endpoints at `found`.
pub open spec fn listing(entries: Seq<EntryView>, found: Seq<int>, n: nat) -> Seq<char>
    decreases n,
{
    if n == 0 || n > found.len() {
        Seq::empty()
    } else {
        let entry = entries[found[n - 1]];
        let sep = if n == 1 {
            Seq::empty()
        } else {
            ", "@
        };
        listing(entries, found, (n - 1) as nat) + sep + "0x"@ + text::hex(
            entry.endpoint_id as nat,
            4,
        ) + " "@ + entry.path
    }
}

/// The message for a name that several endpoints match; it lists the first eight.
pub open spec fn ambiguous_text(
    entries: Seq<EntryView>,
    spec: Seq<char>,
    found: Seq<int>,
) -> Seq<char> {
    let shown: nat = if found.len() > 8 {
        8
    } else {
        found.len()
    };
    "\""@ + spec + "\" is ambiguous: "@ + text::dec(found.len()) + " endpoints match ("@ + listing(
        entries,
        found,
        shown,
    ) + (if found.len() > 8 {
        ", ...)"@
    } else {
        ")"@
    })
}

/// The message for a name that no endpoint matches.
pub open spec fn unmatched_text(spec: Seq<char>, count: nat) -> Seq<char> {
    "no endpoint matches \""@ + spec + "\" in the device's endpoint map ("@ + text::dec(count)
        + " entries); use `find-endpoint --name <substring>` to search it"@
}

/// The message for an id that no endpoint has.
pub open spec fn unknown_id_text(endpoint_id: u16, count: nat, version_crc: u16) -> Seq<char> {
    "endpoint 0x"@ + text::hex(endpoint_id as nat, 4) + " ("@ + text::dec(endpoint_id as nat)
        + ") is not in the device's endpoint map ("@ + text::dec(count) + " entries, VersionCRC=0x"@
        + text::hex(version_crc as nat, 4) + ")"@
}

/// The endpoint that the name `spec` stands for, given lower-case paths and the lower-case
/// forms of the name.
pub open spec fn named_endpoint(
    entries: Seq<EntryView>,
    names: Seq<Seq<char>>,
    spec: Seq<char>,
    wanted: Seq<char>,
    part: Seq<char>,
) -> Result<int, error::Fault> {
    match chosen(names, wanted, part) {
        Choice::One(i) => Ok(i),
        Choice::Many(found) => Err(error::invalid(ambiguous_text(entries, spec, found))),
        Choice::Nothing => Err(error::invalid(unmatched_text(spec, entries.len()))),
    }
}

/// Texts as sequences of characters.
pub open spec fn texts(names: Seq<String>) -> Seq<Seq<char>> {
    names.map_values(|name: String| name@)
}

/// Positions as integers.
pub open spec fn ints(found: Seq<usize>) -> Seq<int> {
    found.map_values(|i: usize| i as int)
}

/// The positions of the names that contain `part`, in order.
pub fn search(names: &Vec<String>, part: &str) -> (res: Vec<usize>)
    ensures
        ints(res@) == containing(texts(names@), part@, names@.len()),
        forall|k: int| 0 <= k < res@.len() ==> #[trigger] res@[k] < names@.len(),
{
    let mut found: Vec<usize> = Vec::new();
    assert(ints(found@) =~= Seq::<int>::empty());
    let mut i: usize = 0;
    while i < names.len()
        invariant
            i <= names@.len(),
            ints(found@) == containing(texts(names@), part@, i as nat),
            forall|k: int| 0 <= k < found@.len() ==> #[trigger] found@[k] < names@.len(),
        decreases names@.len() - i,
    {
        if text_contains(names[i].as_str(), part) {
            assert(ints(found@.push(i)) =~= ints(found@).push(i as int));
            found.push(i);
        }
        i = i + 1;
    }
    found
}

/// The positions of the names whose last segment is `wanted`, in order.
fn search_segment(names: &Vec<String>, wanted: &str) -> (res: Vec<usize>)
    ensures
        ints(res@) == ending_in(texts(names@), wanted@, names@.len()),
        forall|k: int| 0 <= k < res@.len() ==> #[trigger] res@[k] < names@.len(),
{
    let mut found: Vec<usize> = Vec::new();
    assert(ints(found@) =~= Seq::<int>::empty());
    let mut i: usize = 0;
    while i < names.len()
        invariant
            i <= names@.len(),
            ints(found@) == ending_in(texts(names@), wanted@, i as nat),
            forall|k: int| 0 <= k < found@.len() ==> #[trigger] found@[k] < names@.len(),
        decreases names@.len() - i,
    {
        if last_segment_is(names[i].as_str(), wanted) {
            assert(ints(found@.push(i)) =~= ints(found@).push(i as int));
            found.push(i);
        }
        i = i + 1;
    }
    found
}

/// The position of the first name that is `wanted`.
fn search_exact(names: &Vec<String>, wanted: &str) -> (res: Option<usize>)
    ensures
        match res {
            Some(i) => first_named(texts(names@), wanted@, names@.len()) == Some(i as int) && i
                < names@.len(),
            None => first_named(texts(names@), wanted@, names@.len()) is None,
        },
{
    let ghost all = texts(names@);
    let mut i: usize = 0;
    while i < names.len()
        invariant
            i <= names@.len(),
            all == texts(names@),
            first_named(all, wanted@, i as nat) is None,
        decreases names@.len() - i,
    {
        if same_text(names[i].as_str(), wanted) {
            proof {
                assert(first_named(all, wanted@, (i + 1) as nat) == Some(i as int));
                lemma_first_named_stays(all, wanted@, (i + 1) as nat, all.len());
            }
            return Some(i);
        }
        i = i + 1;
    }
    None
}

proof fn lemma_first_named_stays(names: Seq<Seq<char>>, wanted: Seq<char>, n: nat, m: nat)
    requires
        n <= m <= names.len(),
        first_named(names, wanted, n) is Some,
    ensures
        first_named(names, wanted, m) == first_named(names, wanted, n),
    decreases m,
{
    if n < m {
        lemma_first_named_stays(names, wanted, n, (m - 1) as nat);
    }
}

/// The error for a name that several endpoints match.
fn ambiguous_endpoint(spec: &str, entries: &Vec<EndpointEntry>, found: &Vec<usize>) -> (res:
    MotorError)
    requires
        forall|k: int| 0 <= k < found@.len() ==> #[trigger] found@[k] < entries@.len(),
    ensures
        res@ == error::invalid(ambiguous_text(entry_views(entries@), spec@, ints(found@))),
{
    let shown: usize = if found.len() > 8 { 8 } else { found.len() };
    let mut listed: String = String::new();
    let mut i: usize = 0;
    assert(listed@ =~= Seq::<char>::empty());
    while i < shown
        invariant
            i <= shown <= found@.len(),
            listed@ == listing(entry_views(entries@), ints(found@), i as nat),
            forall|k: int| 0 <= k < found@.len() ==> #[trigger] found@[k] < entries@.len(),
        decreases shown - i,
    {
        if i > 0 {
            listed.append(", ");
        } else {
            assert(listed@ =~= listed@ + Seq::<char>::empty());
        }
        let at: usize = found[i];
        let entry: &EndpointEntry = &entries[at];
        listed.append("0x");
        push_hex(&mut listed, entry.endpoint_id as u64, 4);
        listed.append(" ");
        listed.append(entry.path.as_str());
        i = i + 1;
    }
    let mut message: String = "\"".to_owned();
    message.append(spec);
    message.append("\" is ambiguous: ");
    push_dec(&mut message, found.len() as u64);
    message.append(" endpoints match (");
    message.append(listed.as_str());
    message.append(if found.len() > 8 { ", ...)" } else { ")" });
    MotorError::InvalidArgument(message)
}

/// The position of the endpoint that a name stands for.
///
/// `names` are the lower-case paths of `entries`, `wanted` is the lower-case form of the
/// name, and `part` the lower-case form of `wanted`.
pub fn select_endpoint(
    entries: &Vec<EndpointEntry>,
    names: &Vec<String>,
    spec: &str,
    wanted: &str,
    part: &str,
) -> (res: Result<usize, MotorError>)
    requires
        names@.len() == entries@.len(),
    ensures
        match res {
            Ok(i) => i < entries@.len() && named_endpoint(
                entry_views(entries@),
                texts(names@),
                spec@,
                wanted@,
                part@,
            ) == Ok::<int, error::Fault>(i as int),
            Err(err) => named_endpoint(
                entry_views(entries@),
                texts(names@),
                spec@,
                wanted@,
                part@,
            ) == Err::<int, error::Fault>(err@),
        },
{
    if let Some(i) = search_exact(names, wanted) {
        return Ok(i);
    }
    let segments: Vec<usize> = search_segment(names, wanted);
    assert(ints(segments@).len() == segments@.len());
    if segments.len() == 1 {
        assert(ints(segments@)[0] == segments@[0]);
        return Ok(segments[0]);
    }
    if segments.len() > 1 {
        return Err(ambiguous_endpoint(spec, entries, &segments));
    }
    let found: Vec<usize> = search(names, part);
    assert(ints(found@).len() == found@.len());
    if found.len() == 1 {
        assert(ints(found@)[0] == found@[0]);
        return Ok(found[0]);
    }
    if found.len() > 1 {
        return Err(ambiguous_endpoint(spec, entries, &found));
    }
    let mut message: String = "no endpoint matches \"".to_owned();
    message.append(spec);
    message.append("\" in the device's endpoint map (");
    push_dec(&mut message, entries.len() as u64);
    message.append(" entries); use `find-endpoint --name <substring>` to search it");
    Err(MotorError::InvalidArgument(message))
}

/// The lower-case form of each path.
pub open spec fn lowered(entries: Seq<EntryView>) -> Seq<Seq<char>> {
    entries.map_values(|entry: EntryView| lowercase(entry.path))
}

/// The device's endpoint map: every endpoint plus id/name lookups.
#[derive(Debug)]
pub struct EndpointMap {
    total_len: u32,
    version_crc: u16,
    json: String,
    entries: Vec<EndpointEntry>,
    by_id: HashMap<u16, usize>,
    names: Vec<String>,
}

/// The mathematical content of an [`EndpointMap`].
#[verifier::ext_equal]
pub struct MapView {
    pub total_len: u32,
    pub version_crc: u16,
    pub json: Seq<char>,
    pub entries: Seq<EntryView>,
}

impl View for EndpointMap {
    type V = MapView;

    closed spec fn view(&self) -> MapView {
        MapView {
            total_len: self.total_len,
            version_crc: self.version_crc,
            json: self.json@,
            entries: entry_views(self.entries@),
        }
    }
}

/// Whether an index leads from each id to its first occurrence, and from nothing else.
pub open spec fn indexes_first_ids(
    by_id: Map<u16, usize>,
    entries: Seq<EntryView>,
    n: nat,
) -> bool {
    forall|id: u16| #[trigger] indexes_first_id(by_id, entries, n, id)
}

/// Whether an index leads from `id` to its first occurrence among the first `n` entries.
pub open spec fn indexes_first_id(
    by_id: Map<u16, usize>,
    entries: Seq<EntryView>,
    n: nat,
    id: u16,
) -> bool {
    match first_with_id(entries, id, n) {
        Some(i) => by_id.dom().contains(id) && by_id[id] == i && 0 <= i < n,
        None => !by_id.dom().contains(id),
    }
}

/// Whether an endpoint carries a value.
pub open spec fn is_value_kind(kind: EndpointKind) -> bool {
    kind is Value || kind is Other
}

/// How many of the first `n` entries carry a value.
pub open spec fn values_among(entries: Seq<EntryView>, n: nat) -> nat
    decreases n,
{
    if n == 0 || n > entries.len() {
        0
    } else {
        values_among(entries, (n - 1) as nat) + (if is_value_kind(entries[n - 1].kind) {
            1nat
        } else {
            0
        })
    }
}

/// What the text of a descriptor parses into.
pub open spec fn parsed(json: Seq<char>) -> Result<MapView, error::Fault> {
    match json::json_document(json) {
        Ok(root) => Ok(map_of(root, json)),
        Err(message) => Err(
            error::broken("endpoint descriptor is not valid JSON: "@ + message),
        ),
    }
}

/// The map of a descriptor tree, before its metadata is known.
pub open spec fn map_of(root: JsonTree, json: Seq<char>) -> MapView {
    MapView { total_len: 0, version_crc: 0, json, entries: collect(root, Seq::empty()) }
}

/// The position of the endpoint that a human-written specification stands for.
pub open spec fn resolved(map: MapView, spec: Seq<char>) -> Result<int, error::Fault> {
    let wanted = text::trimmed(spec);
    if wanted.len() == 0 {
        Err(error::invalid("endpoint id/name is empty"@))
    } else {
        match id_in_text(wanted) {
            SpecId::Id(id) => match id_position(map.entries, id) {
                Some(i) => Ok(i),
                None => Err(
                    error::invalid(unknown_id_text(id, map.entries.len(), map.version_crc)),
                ),
            },
            SpecId::OutOfRange => Err(
                error::invalid("\""@ + wanted + "\" does not fit in a 16-bit endpoint id"@),
            ),
            SpecId::NotAnId => named_endpoint(
                map.entries,
                lowered(map.entries),
                wanted,
                lowercase(wanted),
                lowercase(lowercase(wanted)),
            ),
        }
    }
}

/// The one-line summary of a map.
pub open spec fn summary_text(map: MapView) -> Seq<char> {
    text::dec(map.entries.len()) + " endpoints ("@ + text::dec(
        values_among(map.entries, map.entries.len()),
    ) + " values), "@ + text::dec(map.total_len as nat) + " bytes, VersionCRC=0x"@ + text::hex(
        map.version_crc as nat,
        4,
    )
}

impl EndpointMap {
    #[verifier::type_invariant]
    spec fn well_formed(self) -> bool {
        &&& texts(self.names@) == lowered(entry_views(self.entries@))
        &&& indexes_first_ids(
            self.by_id@,
            entry_views(self.entries@),
            self.entries@.len(),
        )
    }

    /// Parse descriptor JSON text as returned by `JSON_DESC_READ`.
    ///
    /// The walk keeps every object that carries an `id` (nested `members`, `inputs`,
    /// `outputs` and arrays included) and builds dotted paths. Endpoints are kept in
    /// document order; a lookup of a repeated id finds its first occurrence.
    pub fn parse(json: &str) -> (res: Result<Self, MotorError>)
        ensures
            match res {
                Ok(map) => parsed(json@) == Ok::<MapView, error::Fault>(map@),
                Err(err) => parsed(json@) == Err::<MapView, error::Fault>(err@),
            },
    {
        match Json::parse(json) {
            Ok(root) => Ok(EndpointMap::from_tree(&root, json)),
            Err(message) => {
                let mut text: String = "endpoint descriptor is not valid JSON: ".to_owned();
                text.append(message.as_str());
                Err(MotorError::Protocol(text))
            },
        }
    }

    /// The map of a parsed descriptor; `json` is its text.
    pub fn from_tree(root: &Json, json: &str) -> (res: Self)
        ensures
            res@ == map_of(root.tree(), json@),
    {
        let mut entries: Vec<EndpointEntry> = Vec::new();
        proof {
            reveal_strlit("");
            assert(""@ =~= Seq::<char>::empty());
            assert(entry_views(entries@) =~= Seq::<EntryView>::empty());
        }
        collect_endpoints(root, "", &mut entries);
        assert(entry_views(entries@) =~= collect(root.tree(), Seq::empty()));
        EndpointMap::indexed(entries, json.to_owned())
    }

    fn indexed(entries: Vec<EndpointEntry>, json: String) -> (res: Self)
        ensures
            res@ == (MapView {
                total_len: 0,
                version_crc: 0,
                json: json@,
                entries: entry_views(entries@),
            }),
    {
        let ghost views = entry_views(entries@);
        let mut by_id: HashMap<u16, usize> = HashMap::new();
        let mut names: Vec<String> = Vec::new();
        let mut i: usize = 0;
        assert(texts(names@) =~= lowered(views.take(0)));
        while i < entries.len()
            invariant
                i <= entries@.len(),
                views == entry_views(entries@),
                texts(names@) == lowered(views.take(i as int)),
                indexes_first_ids(by_id@, views, i as nat),
            decreases entries@.len() - i,
        {
            let id: u16 = entries[i].endpoint_id;
            let name: String = to_lower(entries[i].path.as_str());
            let ghost before = by_id@;
            assert(views[i as int] == entries@[i as int]@);
            if !by_id.contains_key(&id) {
                by_id.insert(id, i);
            }
            proof {
                assert(texts(names@.push(name)) =~= texts(names@).push(name@));
                assert(views.take(i + 1) =~= views.take(i as int).push(views[i as int]));
                assert(lowered(views.take(i + 1)) =~= lowered(views.take(i as int)).push(name@));
                assert(views.len() == entries@.len());
                assert forall|k: u16| #[trigger]
                    indexes_first_id(by_id@, views, (i + 1) as nat, k) by {
                    assert(indexes_first_id(before, views, i as nat, k));
                    assert(indexes_first_id(before, views, i as nat, id));
                }
            }
            names.push(name);
            i = i + 1;
        }
        assert(views.take(i as int) =~= views);
        EndpointMap { total_len: 0, version_crc: 0, json, entries, by_id, names }
    }

    /// Attach the metadata frame values (`TotalLength`, `VersionCRC`).
    pub fn with_metadata(self, total_len: u32, version_crc: u16) -> (res: Self)
        ensures
            res@ == (MapView { total_len, version_crc, ..self@ }),
    {
        proof {
            use_type_invariant(&self);
        }
        EndpointMap {
            total_len,
            version_crc,
            json: self.json,
            entries: self.entries,
            by_id: self.by_id,
            names: self.names,
        }
    }

    /// Descriptor length reported by the metadata frame.
    pub fn total_len(&self) -> (res: u32)
        ensures
            res == self@.total_len,
    {
        self.total_len
    }

    /// Descriptor version CRC reported by the metadata frame.
    ///
    /// Compare it across connections to detect that the device's map changed.
    pub fn version_crc(&self) -> (res: u16)
        ensures
            res == self@.version_crc,
    {
        self.version_crc
    }

    /// The descriptor text, byte for byte as received.
    pub fn json_text(&self) -> (res: &str)
        ensures
            res@ == self@.json,
    {
        self.json.as_str()
    }

    /// Every endpoint, in document order.
    pub fn entries(&self) -> (res: &[EndpointEntry])
        ensures
            entry_views(res@) == self@.entries,
    {
        self.entries.as_slice()
    }

    /// Number of endpoints (values, functions and references).
    pub fn len(&self) -> (res: usize)
        ensures
            res == self@.entries.len(),
    {
        self.entries.len()
    }

    pub fn is_empty(&self) -> (res: bool)
        ensures
            res == (self@.entries.len() == 0),
    {
        self.entries.len() == 0
    }

    /// Number of endpoints that carry a value (readable parameters).
    pub fn value_count(&self) -> (res: usize)
        ensures
            res == values_among(self@.entries, self@.entries.len()),
    {
        let mut count: usize = 0;
        let mut i: usize = 0;
        while i < self.entries.len()
            invariant
                i <= self.entries@.len(),
                count <= i,
                count == values_among(self@.entries, i as nat),
            decreases self.entries@.len() - i,
        {
            let carries: bool = match self.entries[i].kind {
                EndpointKind::Value(_) | EndpointKind::Other => true,
                _ => false,
            };
            if carries {
                count = count + 1;
            }
            i = i + 1;
        }
        count
    }

    /// Look an endpoint up by its 16-bit id.
    pub fn get(&self, endpoint_id: u16) -> (res: Option<&EndpointEntry>)
        ensures
            match res {
                Some(entry) => id_position(self@.entries, endpoint_id) matches Some(i) && 0 <= i
                    < self@.entries.len() && entry@ == self@.entries[i],
                None => id_position(self@.entries, endpoint_id) is None,
            },
    {
        proof {
            use_type_invariant(self);
            assert(indexes_first_id(self.by_id@, self@.entries, self@.entries.len(), endpoint_id));
        }
        match self.by_id.get(&endpoint_id) {
            Some(at) => Some(&self.entries[*at]),
            None => None,
        }
    }

    /// Case-insensitive substring search over the dotted paths, in document order.
    pub fn find(&self, needle: &str) -> (res: Vec<&EndpointEntry>)
        ensures
            ({
                let found = containing(
                    lowered(self@.entries),
                    lowercase(needle@),
                    self@.entries.len(),
                );
                &&& res@.len() == found.len()
                &&& forall|k: int|
                    0 <= k < res@.len() ==> 0 <= found[k] < self@.entries.len() && (
                    #[trigger] res@[k])@ == self@.entries[found[k]]
            }),
    {
        proof {
            use_type_invariant(self);
            assert(texts(self.names@).len() == self.names@.len());
        }
        let wanted: String = to_lower(needle);
        let found: Vec<usize> = search(&self.names, wanted.as_str());
        let mut res: Vec<&EndpointEntry> = Vec::new();
        let mut i: usize = 0;
        while i < found.len()
            invariant
                i <= found@.len(),
                self.names@.len() == self.entries@.len(),
                forall|k: int| 0 <= k < found@.len() ==> #[trigger] found@[k] < self.names@.len(),
                res@.len() == i,
                forall|k: int|
                    0 <= k < i ==> (#[trigger] res@[k])@ == self@.entries[found@[k] as int],
            decreases found@.len() - i,
        {
            let at: usize = found[i];
            res.push(&self.entries[at]);
            i = i + 1;
        }
        proof {
            let positions = ints(found@);
            assert(positions.len() == found@.len());
            assert forall|k: int| 0 <= k < res@.len() implies 0 <= positions[k]
                < self@.entries.len() && (#[trigger] res@[k])@ == self@.entries[positions[k]] by {
                assert(found@[k] < self.names@.len());
            }
        }
        res
    }

    /// Resolve an endpoint written by a human.
    ///
    /// Accepted forms, in order: an id (`0x00F7` or `247`), an exact dotted path, an exact
    /// last path segment (`node_id`), or a unique substring (`gear`).
    pub fn resolve(&self, spec: &str) -> (res: Result<&EndpointEntry, MotorError>)
        ensures
            match res {
                Ok(entry) => resolved(self@, spec@) matches Ok(i) && 0 <= i < self@.entries.len()
                    && entry@ == self@.entries[i],
                Err(err) => resolved(self@, spec@) == Err::<int, error::Fault>(err@),
            },
    {
        let wanted: &str = trim(spec);
        proof {
            reveal_strlit("");
            assert(wanted@.len() == 0 ==> wanted@ =~= ""@);
        }
        if same_text(wanted, "") {
            return Err(MotorError::InvalidArgument("endpoint id/name is empty".to_owned()));
        }
        match parse_endpoint_id(wanted) {
            SpecId::Id(id) => match self.get(id) {
                Some(entry) => Ok(entry),
                None => {
                    let mut message: String = "endpoint 0x".to_owned();
                    push_hex(&mut message, id as u64, 4);
                    message.append(" (");
                    push_dec(&mut message, id as u64);
                    message.append(") is not in the device's endpoint map (");
                    push_dec(&mut message, self.entries.len() as u64);
                    message.append(" entries, VersionCRC=0x");
                    push_hex(&mut message, self.version_crc as u64, 4);
                    message.append(")");
                    Err(MotorError::InvalidArgument(message))
                },
            },
            SpecId::OutOfRange => {
                let mut message: String = "\"".to_owned();
                message.append(wanted);
                message.append("\" does not fit in a 16-bit endpoint id");
                Err(MotorError::InvalidArgument(message))
            },
            SpecId::NotAnId => {
                let needle: String = to_lower(wanted);
                let part: String = to_lower(needle.as_str());
                proof {
                    use_type_invariant(self);
                    assert(texts(self.names@).len() == self.names@.len());
                }
                match select_endpoint(
                    &self.entries,
                    &self.names,
                    wanted,
                    needle.as_str(),
                    part.as_str(),
                ) {
                    Ok(at) => Ok(&self.entries[at]),
                    Err(err) => Err(err),
                }
            },
        }
    }

    /// One-line summary for logs and listings.
    pub fn summary(&self) -> (res: String)
        ensures
            res@ == summary_text(self@),
    {
        let mut out: String = String::new();
        push_dec(&mut out, self.entries.len() as u64);
        out.append(" endpoints (");
        push_dec(&mut out, self.value_count() as u64);
        out.append(" values), ");
        push_dec(&mut out, self.total_len as u64);
        out.append(" bytes, VersionCRC=0x");
        push_hex(&mut out, self.version_crc as u64, 4);
        assert(out@ =~= summary_text(self@));
        out
    }
}

impl Clone for EndpointMap {
    fn clone(&self) -> (res: Self)
        ensures
            res@ == self@,
    {
        let mut entries: Vec<EndpointEntry> = Vec::new();
        let mut i: usize = 0;
        assert(entry_views(entries@) =~= self@.entries.take(0));
        while i < self.entries.len()
            invariant
                i <= self.entries@.len(),
                entry_views(entries@) == self@.entries.take(i as int),
            decreases self.entries@.len() - i,
        {
            let entry: EndpointEntry = self.entries[i].clone();
            assert(entry_views(entries@.push(entry)) =~= entry_views(entries@).push(entry@));
            assert(self@.entries.take(i + 1) =~= self@.entries.take(i as int).push(entry@));
            entries.push(entry);
            i = i + 1;
        }
        assert(self@.entries.take(i as int) =~= self@.entries);
        EndpointMap::indexed(entries, self.json.clone()).with_metadata(
            self.total_len,
            self.version_crc,
        )
    }
}

impl Default for EndpointMap {
    /// The map of a device that reports no endpoint.
    fn default() -> (res: Self)
        ensures
            res@ == (MapView {
                total_len: 0,
                version_crc: 0,
                json: Seq::empty(),
                entries: Seq::empty(),
            }),
    {
        let entries: Vec<EndpointEntry> = Vec::new();
        let names: Vec<String> = Vec::new();
        let by_id: HashMap<u16, usize> = HashMap::new();
        proof {
            assert(entry_views(entries@) =~= Seq::<EntryView>::empty());
            assert(texts(names@) =~= lowered(entry_views(entries@)));
        }
        EndpointMap { total_len: 0, version_crc: 0, json: String::new(), entries, by_id, names }
    }
}

/// A repeated id stands for its first occurrence in document order.
pub proof fn law_repeated_ids_keep_the_first_occurrence(entries: Seq<EntryView>, endpoint_id: u16)
    ensures
        match id_position(entries, endpoint_id) {
            Some(i) => 0 <= i < entries.len() && entries[i].endpoint_id == endpoint_id && (
            forall|k: int| 0 <= k < i ==> (#[trigger] entries[k]).endpoint_id != endpoint_id),
            None => forall|k: int|
                0 <= k < entries.len() ==> (#[trigger] entries[k]).endpoint_id != endpoint_id,
        },
{
    lemma_first_with_id(entries, endpoint_id, entries.len());
}

proof fn lemma_first_with_id(entries: Seq<EntryView>, endpoint_id: u16, n: nat)
    requires
        n <= entries.len(),
    ensures
        match first_with_id(entries, endpoint_id, n) {
            Some(i) => 0 <= i < n && entries[i].endpoint_id == endpoint_id && (forall|k: int|
                0 <= k < i ==> (#[trigger] entries[k]).endpoint_id != endpoint_id),
            None => forall|k: int|
                0 <= k < n ==> (#[trigger] entries[k]).endpoint_id != endpoint_id,
        },
    decreases n,
{
    if n > 0 {
        lemma_first_with_id(entries, endpoint_id, (n - 1) as nat);
    }
}

/// A search lists exactly the endpoints whose path contains the text, each once and in
/// document order.
pub proof fn law_search_is_complete_and_ordered(names: Seq<Seq<char>>, part: Seq<char>, n: nat)
    requires
        n <= names.len(),
    ensures
        ({
            let found = containing(names, part, n);
            &&& forall|k: int|
                0 <= k < found.len() ==> 0 <= #[trigger] found[k] < n && text::contains_text(
                    names[found[k]],
                    part,
                )
            &&& forall|j: int, k: int|
                0 <= j < k < found.len() ==> #[trigger] found[j] < #[trigger] found[k]
            &&& forall|i: int|
                0 <= i < n && #[trigger] text::contains_text(names[i], part) ==> found.contains(i)
        }),
    decreases n,
{
    if n > 0 {
        law_search_is_complete_and_ordered(names, part, (n - 1) as nat);
        let before = containing(names, part, (n - 1) as nat);
        let found = containing(names, part, n);
        assert forall|i: int| 0 <= i < n && #[trigger] text::contains_text(
            names[i],
            part,
        ) implies found.contains(i) by {
            if i < n - 1 {
                assert(before.contains(i));
                let k = choose|k: int| 0 <= k < before.len() && before[k] == i;
                assert(found[k] == i);
            } else {
                assert(found[found.len() - 1] == i);
            }
        }
    }
}

/// Lookups do not depend on the case in which a name is written: two spellings with one
/// lower-case form, neither of them an id, stand for the same endpoint.
pub proof fn law_names_are_case_insensitive(map: MapView, a: Seq<char>, b: Seq<char>)
    requires
        lowercase(text::trimmed(a)) == lowercase(text::trimmed(b)),
        text::trimmed(a).len() > 0,
        text::trimmed(b).len() > 0,
        id_in_text(text::trimmed(a)) is NotAnId,
        id_in_text(text::trimmed(b)) is NotAnId,
    ensures
        resolved(map, a) is Ok <==> resolved(map, b) is Ok,
        resolved(map, a) is Ok ==> resolved(map, a) == resolved(map, b),
{
}

/// An endpoint can be asked for by the path that the map gives it, unless that path is
/// empty, blank at an end or a number: the first endpoint with this path (in lower case)
/// is found.
pub proof fn law_every_path_resolves(map: MapView, i: int)
    requires
        0 <= i < map.entries.len(),
        text::trimmed(map.entries[i].path) == map.entries[i].path,
        map.entries[i].path.len() > 0,
        id_in_text(map.entries[i].path) is NotAnId,
    ensures
        resolved(map, map.entries[i].path) matches Ok(at) && 0 <= at <= i && lowercase(
            map.entries[at].path,
        ) == lowercase(map.entries[i].path),
{
    let names = lowered(map.entries);
    assert(names[i] == lowercase(map.entries[i].path));
    lemma_first_named_found(names, names[i], i, names.len());
}

proof fn lemma_first_named_found(names: Seq<Seq<char>>, wanted: Seq<char>, i: int, n: nat)
    requires
        0 <= i < n <= names.len(),
        names[i] == wanted,
    ensures
        first_named(names, wanted, n) matches Some(at) && 0 <= at <= i && names[at] == wanted,
    decreases n,
{
    if i < n - 1 {
        lemma_first_named_found(names, wanted, i, (n - 1) as nat);
    } else {
        lemma_first_named_sound(names, wanted, (n - 1) as nat);
    }
}

proof fn lemma_first_named_sound(names: Seq<Seq<char>>, wanted: Seq<char>, n: nat)
    requires
        n <= names.len(),
    ensures
        first_named(names, wanted, n) matches Some(at) ==> 0 <= at < n && names[at] == wanted,
    decreases n,
{
    if n > 0 {
        lemma_first_named_sound(names, wanted, (n - 1) as nat);
    }
}

/// Digits count by their position: a number that is written behind another one moves that one
/// up by as many places as it has digits.
pub proof fn law_digits_count_by_position(high: Seq<char>, low: Seq<char>, radix: nat)
    ensures
        number_of(high + low, radix) == number_of(high, radix) * vstd::arithmetic::power::pow(
            radix as int,
            low.len(),
        ) + number_of(low, radix),
    decreases low.len(),
{
    let n = number_of(high, radix) as int;
    if low.len() == 0 {
        assert(high + low =~= high);
        vstd::arithmetic::power::lemma_pow0(radix as int);
        assert(n * 1 == n);
    } else {
        let rest = low.drop_last();
        law_digits_count_by_position(high, rest, radix);
        assert((high + low).drop_last() =~= high + rest);
        let p = vstd::arithmetic::power::pow(radix as int, rest.len());
        vstd::arithmetic::power::lemma_pow_adds(radix as int, rest.len(), 1);
        vstd::arithmetic::power::lemma_pow1(radix as int);
        let m = number_of(rest, radix) as int;
        let r = radix as int;
        assert((n * p + m) * r == n * (p * r) + m * r) by (nonlinear_arith);
    }
}

/// A decimal digit is worth its distance from `0`, a letter from `a` to `f` ten more than its
/// distance from `a`, in either case; nothing else is a digit, and letters only in base 16.
pub proof fn law_digits_have_their_value(c: char, radix: nat)
    ensures
        '0' <= c <= '9' ==> number_of(seq![c], radix) == c as int - '0' as int,
        'a' <= c <= 'f' ==> number_of(seq![c], radix) == c as int - 'a' as int + 10,
        'A' <= c <= 'F' ==> number_of(seq![c], radix) == c as int - 'A' as int + 10,
        all_digits(seq![c], 10) <==> '0' <= c <= '9',
        all_digits(seq![c], 16) <==> '0' <= c <= '9' || 'a' <= c <= 'f' || 'A' <= c <= 'F',
{
    reveal_with_fuel(number_of, 2);
    assert(seq![c].drop_last() =~= Seq::<char>::empty());
    assert(seq![c][0] == c);
}

/// A number that is written in base 10 or 16 is read back as itself. The decimal notation has
/// no leading zero, and the other one has at least the digits that were asked for.
pub proof fn law_written_numbers_are_read_back(n: nat, width: nat)
    ensures
        all_digits(text::dec(n), 10),
        number_of(text::dec(n), 10) == n,
        n >= 10 ==> text::dec(n)[0] != '0',
        n < 10 ==> text::dec(n).len() == 1,
        all_digits(text::hex(n, width), 16),
        number_of(text::hex(n, width), 16) == n,
        text::hex(n, width).len() >= width,
        text::hex(n, width).len() > width && n >= 16 ==> text::hex(n, width)[0] != '0',
        n < 16 && width <= 1 ==> text::hex(n, width).len() == 1,
{
    lemma_dec(n);
    lemma_hex(n, width);
}

proof fn lemma_dec(n: nat)
    ensures
        all_digits(text::dec(n), 10),
        number_of(text::dec(n), 10) == n,
        n > 0 ==> text::dec(n)[0] != '0',
    decreases n,
{
    reveal_with_fuel(number_of, 2);
    let written = text::dec(n);
    if n < 10 {
        assert(written.drop_last() =~= Seq::<char>::empty());
    } else {
        lemma_dec(n / 10);
        assert(written.drop_last() =~= text::dec(n / 10));
        assert forall|i: int| 0 <= i < written.len() implies is_digit_of(
            #[trigger] written[i],
            10,
        ) by {
            if i < written.len() - 1 {
                assert(written[i] == text::dec(n / 10)[i]);
            }
        }
    }
}

proof fn lemma_hex(n: nat, width: nat)
    ensures
        all_digits(text::hex(n, width), 16),
        number_of(text::hex(n, width), 16) == n,
        text::hex(n, width).len() >= width,
        text::hex(n, width).len() > 0,
        n < 16 && width > 0 ==> text::hex(n, width).len() == width,
        text::hex(n, width).len() > width && n > 0 ==> text::hex(n, width)[0] != '0',
    decreases n, width,
{
    reveal_with_fuel(number_of, 2);
    let written = text::hex(n, width);
    if n < 16 && width <= 1 {
        assert(written.drop_last() =~= Seq::<char>::empty());
    } else {
        let rest: nat = if width <= 1 {
            0
        } else {
            (width - 1) as nat
        };
        lemma_hex(n / 16, rest);
        assert(written.drop_last() =~= text::hex(n / 16, rest));
        assert(written[0] == text::hex(n / 16, rest)[0]);
        assert forall|i: int| 0 <= i < written.len() implies is_digit_of(
            #[trigger] written[i],
            16,
        ) by {
            if i < written.len() - 1 {
                assert(written[i] == text::hex(n / 16, rest)[i]);
            }
        }
    }
}

/// An id may be written in base 10, or in base 16 behind `0x` or `0X` with any number of
/// leading zeros: it is read as itself when it has 16 bits, and is out of range otherwise.
pub proof fn law_ids_are_read_in_both_bases(n: nat, width: nat, x: char)
    requires
        x == 'x' || x == 'X',
    ensures
        n < 0x1_0000 ==> id_in_text(text::dec(n)) == SpecId::Id(n as u16),
        n < 0x1_0000 ==> id_in_text(seq!['0', x] + text::hex(n, width)) == SpecId::Id(n as u16),
        n >= 0x1_0000 ==> id_in_text(text::dec(n)) is OutOfRange,
        n >= 0x1_0000 ==> id_in_text(seq!['0', x] + text::hex(n, width)) is OutOfRange,
{
    lemma_dec(n);
    lemma_hex(n, width);
    let spec = seq!['0', x] + text::hex(n, width);
    assert(spec.skip(2) =~= text::hex(n, width));
    let plain = text::dec(n);
    if plain.len() >= 2 {
        assert(is_digit_of(plain[1], 10));
    }
}

/// A text is a number exactly when it consists of decimal digits, or of base-16 digits behind
/// `0x` or `0X`, at least one of them; everything else is a name.
pub proof fn law_only_digits_are_ids(spec: Seq<char>)
    ensures
        id_in_text(spec) !is NotAnId <==> (spec.len() > 0 && forall|i: int|
            0 <= i < spec.len() ==> '0' <= #[trigger] spec[i] <= '9') || (spec.len() > 2 && spec[0]
            == '0' && (spec[1] == 'x' || spec[1] == 'X') && forall|i: int|
            2 <= i < spec.len() ==> ('0' <= #[trigger] spec[i] <= '9' || 'a' <= spec[i] <= 'f'
                || 'A' <= spec[i] <= 'F')),
{
    if has_hex_prefix(spec) {
        let digits = spec.skip(2);
        assert forall|i: int| 2 <= i < spec.len() implies #[trigger] spec[i] == digits[i - 2] by {}
        assert(!('0' <= spec[1] <= '9'));
        if id_in_text(spec) !is NotAnId {
            assert forall|i: int| 2 <= i < spec.len() implies ('0' <= #[trigger] spec[i] <= '9'
                || 'a' <= spec[i] <= 'f' || 'A' <= spec[i] <= 'F') by {
                assert(is_digit_of(digits[i - 2], 16));
            }
        } else if spec.len() > 2 {
            let k = choose|k: int|
                0 <= k < digits.len() && !is_digit_of(#[trigger] digits[k], 16);
            assert(spec[k + 2] == digits[k]);
        }
    } else if id_in_text(spec) !is NotAnId {
        assert forall|i: int| 0 <= i < spec.len() implies '0' <= #[trigger] spec[i] <= '9' by {
            assert(is_digit_of(spec[i], 10));
        }
    }
}

/// Whether `name` is the last segment of the path, with a dot before it or as the whole path.
pub open spec fn is_last_segment(path: Seq<char>, name: Seq<char>) -> bool {
    !name.contains('.') && (path == name || exists|prefix: Seq<char>|
        path == #[trigger] (prefix + seq!['.'] + name))
}

/// The search for a last segment lists exactly the names that are `wanted` or end in a dot and
/// `wanted`, where `wanted` has no dot, each once and in order; a name that merely contains
/// `wanted` is not among them.
pub proof fn law_segment_search_is_exact_and_ordered(
    names: Seq<Seq<char>>,
    wanted: Seq<char>,
    n: nat,
)
    requires
        n <= names.len(),
    ensures
        ({
            let found = ending_in(names, wanted, n);
            &&& forall|k: int|
                0 <= k < found.len() ==> 0 <= #[trigger] found[k] < n && is_last_segment(
                    names[found[k]],
                    wanted,
                )
            &&& forall|j: int, k: int|
                0 <= j < k < found.len() ==> #[trigger] found[j] < #[trigger] found[k]
            &&& forall|i: int|
                0 <= i < n && #[trigger] is_last_segment(names[i], wanted) ==> found.contains(i)
        }),
    decreases n,
{
    if n > 0 {
        law_segment_search_is_exact_and_ordered(names, wanted, (n - 1) as nat);
        text::law_last_segments_stand_behind_the_last_dot(names[n - 1], wanted);
        let before = ending_in(names, wanted, (n - 1) as nat);
        let found = ending_in(names, wanted, n);
        assert forall|i: int| 0 <= i < n && #[trigger] is_last_segment(
            names[i],
            wanted,
        ) implies found.contains(i) by {
            if i < n - 1 {
                assert(before.contains(i));
                let k = choose|k: int| 0 <= k < before.len() && before[k] == i;
                assert(found[k] == i);
            } else {
                assert(found[found.len() - 1] == i);
            }
        }
    }
}

proof fn lemma_one_found(found: Seq<int>, i: int)
    requires
        found.contains(i),
        forall|k: int| 0 <= k < found.len() ==> #[trigger] found[k] == i,
        forall|j: int, k: int| 0 <= j < k < found.len() ==> #[trigger] found[j] < #[trigger] found[k],
    ensures
        choice_of(found) == Choice::One(i),
{
    if found.len() > 1 {
        assert(found[0] < found[1]);
    }
}

proof fn lemma_several_found(found: Seq<int>, i: int, j: int)
    requires
        found.contains(i),
        found.contains(j),
        i != j,
    ensures
        choice_of(found) == Choice::Many(found),
{
}

proof fn lemma_no_exact_name(names: Seq<Seq<char>>, wanted: Seq<char>)
    requires
        forall|i: int| 0 <= i < names.len() ==> #[trigger] names[i] != wanted,
    ensures
        first_named(names, wanted, names.len()) is None,
{
    lemma_first_named_sound(names, wanted, names.len());
}

/// A name that is the last segment of exactly one path, and is itself no path, stands for that
/// endpoint, however many other paths contain it.
pub proof fn law_a_unique_last_segment_is_found(map: MapView, spec: Seq<char>, i: int)
    requires
        text::trimmed(spec).len() > 0,
        id_in_text(text::trimmed(spec)) is NotAnId,
        0 <= i < map.entries.len(),
        forall|k: int|
            0 <= k < map.entries.len() ==> lowercase((#[trigger] map.entries[k]).path) != lowercase(
                text::trimmed(spec),
            ),
        is_last_segment(lowercase(map.entries[i].path), lowercase(text::trimmed(spec))),
        forall|k: int|
            0 <= k < map.entries.len() && k != i ==> !is_last_segment(
                lowercase((#[trigger] map.entries[k]).path),
                lowercase(text::trimmed(spec)),
            ),
    ensures
        resolved(map, spec) == Ok::<int, error::Fault>(i),
{
    let names = lowered(map.entries);
    let wanted = lowercase(text::trimmed(spec));
    assert forall|k: int| 0 <= k < names.len() implies #[trigger] names[k] != wanted by {
        assert(names[k] == lowercase(map.entries[k].path));
    }
    lemma_no_exact_name(names, wanted);
    law_segment_search_is_exact_and_ordered(names, wanted, names.len());
    let found = ending_in(names, wanted, names.len());
    assert(names[i] == lowercase(map.entries[i].path));
    assert(is_last_segment(names[i], wanted));
    assert forall|k: int| 0 <= k < found.len() implies #[trigger] found[k] == i by {
        let at = found[k];
        assert(is_last_segment(names[at], wanted));
        assert(names[at] == lowercase(map.entries[at].path));
    }
    lemma_one_found(found, i);
}

/// A name that is the last segment of several paths, and is itself no path, is refused as
/// ambiguous.
pub proof fn law_a_repeated_last_segment_is_refused(map: MapView, spec: Seq<char>, i: int, j: int)
    requires
        text::trimmed(spec).len() > 0,
        id_in_text(text::trimmed(spec)) is NotAnId,
        0 <= i < j < map.entries.len(),
        forall|k: int|
            0 <= k < map.entries.len() ==> lowercase((#[trigger] map.entries[k]).path) != lowercase(
                text::trimmed(spec),
            ),
        is_last_segment(lowercase(map.entries[i].path), lowercase(text::trimmed(spec))),
        is_last_segment(lowercase(map.entries[j].path), lowercase(text::trimmed(spec))),
    ensures
        resolved(map, spec) matches Err(fault) && fault.kind == error::ErrorKind::InvalidArgument,
{
    let names = lowered(map.entries);
    let wanted = lowercase(text::trimmed(spec));
    assert forall|k: int| 0 <= k < names.len() implies #[trigger] names[k] != wanted by {
        assert(names[k] == lowercase(map.entries[k].path));
    }
    lemma_no_exact_name(names, wanted);
    law_segment_search_is_exact_and_ordered(names, wanted, names.len());
    assert(names[i] == lowercase(map.entries[i].path));
    assert(names[j] == lowercase(map.entries[j].path));
    assert(is_last_segment(names[i], wanted) && is_last_segment(names[j], wanted));
    lemma_several_found(ending_in(names, wanted, names.len()), i, j);
}

/// A name that is no path and no last segment of one stands for the only endpoint whose path
/// contains it; it is refused when no path does, and when several do.
pub proof fn law_substrings_count_when_nothing_else_does(map: MapView, spec: Seq<char>)
    requires
        text::trimmed(spec).len() > 0,
        id_in_text(text::trimmed(spec)) is NotAnId,
        forall|k: int|
            0 <= k < map.entries.len() ==> !is_last_segment(
                lowercase((#[trigger] map.entries[k]).path),
                lowercase(text::trimmed(spec)),
            ) && lowercase(map.entries[k].path) != lowercase(text::trimmed(spec)),
    ensures
        resolved(map, spec) matches Ok(i) ==> 0 <= i < map.entries.len() && text::contains_text(
            lowercase(map.entries[i].path),
            lowercase(lowercase(text::trimmed(spec))),
        ),
        forall|i: int|
            0 <= i < map.entries.len() && text::contains_text(
                lowercase((#[trigger] map.entries[i]).path),
                lowercase(lowercase(text::trimmed(spec))),
            ) ==> (resolved(map, spec) is Ok <==> resolved(map, spec) == Ok::<int, error::Fault>(i))
                && (resolved(map, spec) is Ok <==> forall|k: int|
                0 <= k < map.entries.len() && k != i ==> !text::contains_text(
                    lowercase((#[trigger] map.entries[k]).path),
                    lowercase(lowercase(text::trimmed(spec))),
                )),
{
    let names = lowered(map.entries);
    let wanted = lowercase(text::trimmed(spec));
    let part = lowercase(wanted);
    assert forall|k: int| 0 <= k < names.len() implies #[trigger] names[k] == lowercase(
        map.entries[k].path,
    ) by {}
    lemma_no_exact_name(names, wanted);
    law_segment_search_is_exact_and_ordered(names, wanted, names.len());
    let segments = ending_in(names, wanted, names.len());
    if segments.len() > 0 {
        let at = segments[0];
        assert(is_last_segment(lowercase(map.entries[at].path), wanted));
    }
    law_search_is_complete_and_ordered(names, part, names.len());
    let found = containing(names, part, names.len());
    if resolved(map, spec) is Ok {
        assert(text::contains_text(names[found[0]], part));
    }
    assert forall|i: int|
        0 <= i < map.entries.len() && text::contains_text(
            lowercase((#[trigger] map.entries[i]).path),
            part,
        ) implies (resolved(map, spec) is Ok <==> resolved(map, spec) == Ok::<int, error::Fault>(i))
        && (resolved(map, spec) is Ok <==> forall|k: int|
        0 <= k < map.entries.len() && k != i ==> !text::contains_text(
            lowercase((#[trigger] map.entries[k]).path),
            part,
        )) by {
        assert(text::contains_text(names[i], part));
        assert(found.contains(i));
        if forall|k: int|
            0 <= k < map.entries.len() && k != i ==> !text::contains_text(
                lowercase((#[trigger] map.entries[k]).path),
                part,
            ) {
            assert forall|k: int| 0 <= k < found.len() implies #[trigger] found[k] == i by {
                let at = found[k];
                assert(text::contains_text(names[at], part));
                assert(names[at] == lowercase(map.entries[at].path));
            }
            lemma_one_found(found, i);
        } else {
            let k = choose|k: int|
                0 <= k < map.entries.len() && k != i && text::contains_text(
                    lowercase((#[trigger] map.entries[k]).path),
                    part,
                );
            assert(text::contains_text(names[k], part));
            lemma_several_found(found, i, k);
        }
    }
}

/// A number stands for the first endpoint with that id, whatever the paths are, and is refused
/// when there is none, or when it has more than 16 bits.
pub proof fn law_numbers_stand_for_ids(map: MapView, spec: Seq<char>)
    requires
        text::trimmed(spec).len() > 0,
    ensures
        id_in_text(text::trimmed(spec)) is OutOfRange ==> resolved(map, spec) is Err,
        id_in_text(text::trimmed(spec)) matches SpecId::Id(id) ==> match resolved(map, spec) {
            Ok(i) => 0 <= i < map.entries.len() && map.entries[i].endpoint_id == id && forall|k: int|
                0 <= k < i ==> (#[trigger] map.entries[k]).endpoint_id != id,
            Err(_) => forall|k: int|
                0 <= k < map.entries.len() ==> (#[trigger] map.entries[k]).endpoint_id != id,
        },
{
    if let SpecId::Id(id) = id_in_text(text::trimmed(spec)) {
        law_repeated_ids_keep_the_first_occurrence(map.entries, id);
    }
}

/// Blank texts stand for no endpoint.
pub proof fn law_blank_texts_resolve_to_nothing(map: MapView, spec: Seq<char>)
    requires
        text::is_blank(spec),
    ensures
        resolved(map, spec) matches Err(fault) && fault.kind == error::ErrorKind::InvalidArgument,
{
    text::law_trimming_drops_white_space_only(spec);
    let kept = text::trimmed(spec);
    if kept.len() > 0 {
        let (before, after) = choose|before: Seq<char>, after: Seq<char>|
            spec == #[trigger] (before + kept + after) && text::is_blank(before)
                && text::is_blank(after);
        assert(spec[before.len() as int] == kept[0]);
    }
}

/// A path below another one is that path, a dot and the name; an object without a name, and
/// one below no path, add no dot.
pub proof fn law_paths_are_dotted(prefix: Seq<char>, name: Seq<char>)
    ensures
        prefix.len() > 0 && name.len() > 0 ==> joined(prefix, name) == prefix + seq!['.'] + name,
        prefix.len() == 0 ==> joined(prefix, name) == name,
        name.len() == 0 ==> joined(prefix, name) == prefix,
{
    reveal_strlit(".");
    assert("."@ =~= seq!['.']);
    if prefix.len() == 0 {
        assert(prefix + name =~= name);
    }
    if name.len() == 0 {
        assert(prefix + name =~= prefix);
    }
}

/// What stands at the end of a way down a descriptor, with the path of the objects on the way.
///
/// Each step leads to an item of an array, or to the value of a field other than `name`, `id`,
/// `type` and `access`.
pub open spec fn reached(node: JsonTree, path: Seq<char>, way: Seq<int>) -> Option<
    (JsonTree, Seq<char>),
>
    decreases way.len(),
{
    if way.len() == 0 {
        Some((node, path))
    } else {
        match node {
            JsonTree::Array(items) => if 0 <= way[0] < items.len() {
                reached(items[way[0]], path, way.drop_first())
            } else {
                None
            },
            JsonTree::Object(fields) => if 0 <= way[0] < fields.len() && !seq![
                "name"@,
                "id"@,
                "type"@,
                "access"@,
            ].contains(fields[way[0]].0) {
                reached(fields[way[0]].1, path_of(fields, path), way.drop_first())
            } else {
                None
            },
            _ => None,
        }
    }
}

/// The path of an object below `path`.
pub open spec fn path_of(fields: Seq<(Seq<char>, JsonTree)>, path: Seq<char>) -> Seq<char> {
    match json::text_field(fields, "name"@) {
        Some(name) => joined(path, name),
        None => path,
    }
}

/// Whether an entry is what an object with a 16-bit `id` says of itself.
pub open spec fn describes(
    fields: Seq<(Seq<char>, JsonTree)>,
    path: Seq<char>,
    entry: EntryView,
) -> bool {
    &&& json::number_field(fields, "id"@) matches Some(id) && id == entry.endpoint_id
    &&& entry.path == path_of(fields, path)
    &&& match json::text_field(fields, "type"@) {
        Some(declared) => entry.raw_type == declared,
        None => entry.raw_type.len() == 0,
    }
    &&& entry.kind == kind_of(entry.raw_type)
    &&& entry.access == access_of(json::text_field(fields, "access"@))
}

proof fn lemma_own_keys(key: Seq<char>)
    ensures
        is_own_field(key) <==> seq!["name"@, "id"@, "type"@, "access"@].contains(key),
{
    let keys = seq!["name"@, "id"@, "type"@, "access"@];
    assert(keys[0] == "name"@ && keys[1] == "id"@ && keys[2] == "type"@ && keys[3] == "access"@);
}

proof fn lemma_path_of(fields: Seq<(Seq<char>, JsonTree)>, path: Seq<char>)
    ensures
        joined(path, text_or_empty(json::text_field(fields, "name"@))) == path_of(fields, path),
{
    law_paths_are_dotted(path, Seq::empty());
}

/// The map is complete: every object with a 16-bit `id` that a way leads to, through array
/// items and through all fields but `name`, `id`, `type` and `access`, is listed with its path,
/// type and access.
pub proof fn law_every_described_endpoint_is_listed(
    node: JsonTree,
    path: Seq<char>,
    way: Seq<int>,
    entry: EntryView,
)
    requires
        reached(node, path, way) matches Some((end, above)) && end is Object && describes(
            end->Object_0,
            above,
            entry,
        ),
    ensures
        collect(node, path).contains(entry),
    decreases way.len(),
{
    if way.len() == 0 {
        let fields = node->Object_0;
        lemma_path_of(fields, path);
        let own = own_entry(fields, path_of(fields, path));
        if json::text_field(fields, "type"@) is None {
            assert(entry.raw_type =~= Seq::<char>::empty());
        }
        assert(own[0] == entry);
        assert(collect(node, path)[0] == entry);
    } else {
        let rest = way.drop_first();
        match node {
            JsonTree::Array(items) => {
                let at = way[0];
                law_every_described_endpoint_is_listed(items[at], path, rest, entry);
                lemma_items_hold(items, path, items.len(), at, entry);
            },
            JsonTree::Object(fields) => {
                let at = way[0];
                lemma_path_of(fields, path);
                let below = path_of(fields, path);
                lemma_own_keys(fields[at].0);
                law_every_described_endpoint_is_listed(fields[at].1, below, rest, entry);
                lemma_fields_hold(fields, below, fields.len(), at, entry);
                let own = own_entry(fields, below);
                let under = collect_fields(fields, below, fields.len());
                let k = choose|k: int| 0 <= k < under.len() && under[k] == entry;
                assert((own + under)[own.len() + k] == entry);
            },
            _ => {},
        }
    }
}

proof fn lemma_items_hold(items: Seq<JsonTree>, path: Seq<char>, n: nat, at: int, entry: EntryView)
    requires
        0 <= at < n <= items.len(),
        collect(items[at], path).contains(entry),
    ensures
        collect_items(items, path, n).contains(entry),
    decreases n,
{
    let before = collect_items(items, path, (n - 1) as nat);
    let last = collect(items[n - 1], path);
    if at < n - 1 {
        lemma_items_hold(items, path, (n - 1) as nat, at, entry);
        let k = choose|k: int| 0 <= k < before.len() && before[k] == entry;
        assert((before + last)[k] == entry);
    } else {
        let k = choose|k: int| 0 <= k < last.len() && last[k] == entry;
        assert((before + last)[before.len() + k] == entry);
    }
}

proof fn lemma_fields_hold(
    fields: Seq<(Seq<char>, JsonTree)>,
    path: Seq<char>,
    n: nat,
    at: int,
    entry: EntryView,
)
    requires
        0 <= at < n <= fields.len(),
        !is_own_field(fields[at].0),
        collect(fields[at].1, path).contains(entry),
    ensures
        collect_fields(fields, path, n).contains(entry),
    decreases n,
{
    let before = collect_fields(fields, path, (n - 1) as nat);
    let last = collect(fields[n - 1].1, path);
    if at < n - 1 {
        lemma_fields_hold(fields, path, (n - 1) as nat, at, entry);
        let k = choose|k: int| 0 <= k < before.len() && before[k] == entry;
        assert((before + last)[k] == entry);
    } else {
        let k = choose|k: int| 0 <= k < last.len() && last[k] == entry;
        assert((before + last)[before.len() + k] == entry);
    }
}

/// The map holds nothing else: for each entry there is a way to an object that describes it.
pub proof fn law_only_described_endpoints_are_listed(
    node: JsonTree,
    path: Seq<char>,
    entry: EntryView,
)
    requires
        collect(node, path).contains(entry),
    ensures
        exists|way: Seq<int>| #[trigger]
            reached(node, path, way) matches Some((end, above)) && end is Object && describes(
                end->Object_0,
                above,
                entry,
            ),
    decreases node, 0nat,
{
    match node {
        JsonTree::Array(items) => {
            assert(decreases_to!(node => node->Array_0));
            let at = lemma_item_of(items, path, items.len(), entry);
            assert(decreases_to!(items => items[at]));
            law_only_described_endpoints_are_listed(items[at], path, entry);
            let rest = choose|way: Seq<int>| #[trigger]
                reached(items[at], path, way) matches Some((end, above)) && end is Object
                    && describes(end->Object_0, above, entry);
            let way = seq![at] + rest;
            assert(way.drop_first() =~= rest);
            assert(reached(node, path, way) == reached(items[at], path, rest));
        },
        JsonTree::Object(fields) => {
            assert(decreases_to!(node => node->Object_0));
            lemma_path_of(fields, path);
            let below = path_of(fields, path);
            let own = own_entry(fields, below);
            let under = collect_fields(fields, below, fields.len());
            let k = choose|k: int| 0 <= k < collect(node, path).len() && collect(node, path)[k] == entry;
            if k < own.len() {
                assert(own[k] == entry);
                let way = Seq::<int>::empty();
                assert(reached(node, path, way) == Some((node, path)));
                assert(describes(fields, path, entry));
            } else {
                assert(under[k - own.len()] == entry);
                let at = lemma_field_of(fields, below, fields.len(), entry);
                let pair = fields[at];
                assert(decreases_to!(fields => fields[at]));
                assert(decreases_to!(pair => pair.1));
                law_only_described_endpoints_are_listed(fields[at].1, below, entry);
                lemma_own_keys(fields[at].0);
                let rest = choose|way: Seq<int>| #[trigger]
                    reached(fields[at].1, below, way) matches Some((end, above)) && end is Object
                        && describes(end->Object_0, above, entry);
                let way = seq![at] + rest;
                assert(way.drop_first() =~= rest);
                assert(reached(node, path, way) == reached(fields[at].1, below, rest));
            }
        },
        _ => {},
    }
}

proof fn lemma_item_of(items: Seq<JsonTree>, path: Seq<char>, n: nat, entry: EntryView) -> (at: int)
    requires
        n <= items.len(),
        collect_items(items, path, n).contains(entry),
    ensures
        0 <= at < n,
        collect(items[at], path).contains(entry),
    decreases n,
{
    let all = collect_items(items, path, n);
    let k = choose|k: int| 0 <= k < all.len() && all[k] == entry;
    let before = collect_items(items, path, (n - 1) as nat);
    if k < before.len() {
        assert(before[k] == entry);
        lemma_item_of(items, path, (n - 1) as nat, entry)
    } else {
        assert(collect(items[n - 1], path)[k - before.len()] == entry);
        n - 1
    }
}

proof fn lemma_field_of(
    fields: Seq<(Seq<char>, JsonTree)>,
    path: Seq<char>,
    n: nat,
    entry: EntryView,
) -> (at: int)
    requires
        n <= fields.len(),
        collect_fields(fields, path, n).contains(entry),
    ensures
        0 <= at < n,
        !is_own_field(fields[at].0),
        collect(fields[at].1, path).contains(entry),
    decreases n,
{
    let all = collect_fields(fields, path, n);
    let k = choose|k: int| 0 <= k < all.len() && all[k] == entry;
    let before = collect_fields(fields, path, (n - 1) as nat);
    if k < before.len() {
        assert(before[k] == entry);
        lemma_field_of(fields, path, (n - 1) as nat, entry)
    } else {
        assert(!is_own_field(fields[n - 1].0));
        assert(collect(fields[n - 1].1, path)[k - before.len()] == entry);
        n - 1
    }
}

/// The number of objects with a 16-bit `id` at and below `node`.
pub open spec fn described_count(node: JsonTree) -> nat
    decreases node, 0nat,
{
    match node {
        JsonTree::Array(items) => {
            proof {
                assert(decreases_to!(node => node->Array_0));
            }
            described_items(items, items.len())
        },
        JsonTree::Object(fields) => {
            proof {
                assert(decreases_to!(node => node->Object_0));
            }
            let own: nat = if json::number_field(fields, "id"@) matches Some(id) && id <= 0xFFFF {
                1
            } else {
                0
            };
            own + described_fields(fields, fields.len())
        },
        _ => 0,
    }
}

/// The number of objects with a 16-bit `id` in the first `n` items.
pub open spec fn described_items(items: Seq<JsonTree>, n: nat) -> nat
    decreases items, n,
{
    if n == 0 || n > items.len() {
        0
    } else {
        described_items(items, (n - 1) as nat) + described_count(items[n - 1])
    }
}

/// The number of objects with a 16-bit `id` in the first `n` fields, those that say something
/// of the object itself left out.
pub open spec fn described_fields(fields: Seq<(Seq<char>, JsonTree)>, n: nat) -> nat
    decreases fields, n,
{
    if n == 0 || n > fields.len() {
        0
    } else {
        proof {
            let pair = fields[n - 1];
            assert(decreases_to!(fields => fields[n - 1]));
            assert(decreases_to!(pair => pair.1));
        }
        described_fields(fields, (n - 1) as nat) + (if seq![
            "name"@,
            "id"@,
            "type"@,
            "access"@,
        ].contains(fields[n - 1].0) {
            0
        } else {
            described_count(fields[n - 1].1)
        })
    }
}

/// The map has as many entries as the descriptor has objects with a 16-bit `id`.
pub proof fn law_each_described_endpoint_is_listed_once(node: JsonTree, path: Seq<char>)
    ensures
        collect(node, path).len() == described_count(node),
    decreases node, 0nat,
{
    match node {
        JsonTree::Array(items) => {
            assert(decreases_to!(node => node->Array_0));
            lemma_items_count(items, path, items.len());
        },
        JsonTree::Object(fields) => {
            assert(decreases_to!(node => node->Object_0));
            lemma_path_of(fields, path);
            lemma_fields_count(fields, path_of(fields, path), fields.len());
        },
        _ => {},
    }
}

proof fn lemma_items_count(items: Seq<JsonTree>, path: Seq<char>, n: nat)
    requires
        n <= items.len(),
    ensures
        collect_items(items, path, n).len() == described_items(items, n),
    decreases items, n,
{
    if n > 0 {
        lemma_items_count(items, path, (n - 1) as nat);
        assert(decreases_to!(items => items[n - 1]));
        law_each_described_endpoint_is_listed_once(items[n - 1], path);
    }
}

proof fn lemma_fields_count(fields: Seq<(Seq<char>, JsonTree)>, path: Seq<char>, n: nat)
    requires
        n <= fields.len(),
    ensures
        collect_fields(fields, path, n).len() == described_fields(fields, n),
    decreases fields, n,
{
    if n > 0 {
        lemma_fields_count(fields, path, (n - 1) as nat);
        let pair = fields[n - 1];
        assert(decreases_to!(fields => fields[n - 1]));
        assert(decreases_to!(pair => pair.1));
        law_each_described_endpoint_is_listed_once(fields[n - 1].1, path);
        lemma_own_keys(fields[n - 1].0);
    }
}

/// Endpoints are listed in document order: what stands in the first items of an array comes
/// before what stands in the others, and an object comes before what stands below it.
pub proof fn law_endpoints_are_listed_in_document_order(
    first: Seq<JsonTree>,
    second: Seq<JsonTree>,
    fields: Seq<(Seq<char>, JsonTree)>,
    path: Seq<char>,
    entry: EntryView,
)
    ensures
        collect(JsonTree::Array(first + second), path) == collect(JsonTree::Array(first), path)
            + collect(JsonTree::Array(second), path),
        describes(fields, path, entry) ==> collect(JsonTree::Object(fields), path).len() > 0
            && collect(JsonTree::Object(fields), path)[0] == entry,
{
    lemma_items_split(first, second, path, second.len());
    lemma_items_agree(first + second, first, path, first.len());
    if describes(fields, path, entry) {
        lemma_path_of(fields, path);
        if json::text_field(fields, "type"@) is None {
            assert(entry.raw_type =~= Seq::<char>::empty());
        }
        assert(own_entry(fields, path_of(fields, path))[0] == entry);
    }
}

proof fn lemma_items_agree(a: Seq<JsonTree>, b: Seq<JsonTree>, path: Seq<char>, n: nat)
    requires
        n <= a.len(),
        n <= b.len(),
        forall|i: int| 0 <= i < n ==> a[i] == b[i],
    ensures
        collect_items(a, path, n) == collect_items(b, path, n),
    decreases n,
{
    if n > 0 {
        lemma_items_agree(a, b, path, (n - 1) as nat);
    }
}

proof fn lemma_items_split(first: Seq<JsonTree>, second: Seq<JsonTree>, path: Seq<char>, n: nat)
    requires
        n <= second.len(),
    ensures
        collect_items(first + second, path, first.len() + n) == collect_items(
            first,
            path,
            first.len(),
        ) + collect_items(second, path, n),
    decreases n,
{
    let whole = first + second;
    if n == 0 {
        lemma_items_agree(whole, first, path, first.len());
        assert(collect_items(first, path, first.len()) + Seq::<EntryView>::empty()
            =~= collect_items(first, path, first.len()));
    } else {
        lemma_items_split(first, second, path, (n - 1) as nat);
        assert(whole[first.len() + n - 1] == second[n - 1]);
        assert(collect_items(whole, path, first.len() + n) =~= collect_items(
            first,
            path,
            first.len(),
        ) + collect_items(second, path, n));
    }
}

/// A type text names a function, a reference, a nested document or a value type, each by its
/// own word; every other text is kept as an unknown kind.
pub proof fn law_kinds_go_by_their_word(raw: Seq<char>)
    ensures
        kind_of(raw) is Function <==> raw == "function"@,
        kind_of(raw) is EndpointRef <==> raw == "endpoint_ref"@,
        kind_of(raw) is Json <==> raw == "json"@,
        kind_of(raw) is Value <==> values::value_type_of(raw) is Some,
        kind_of(raw) matches EndpointKind::Value(declared) ==> values::value_type_of(raw) == Some(
            declared,
        ),
        kind_of(raw).value_type() is Some <==> kind_of(raw) is Value,
        kind_of(raw).value_type() == values::value_type_of(raw),
{
    reveal_strlit("function");
    reveal_strlit("endpoint_ref");
    reveal_strlit("json");
    values::law_type_words_are_the_only_ones(raw);
    assert("function"@.len() == 8 && "endpoint_ref"@.len() == 12 && "json"@.len() == 4);
    reveal_strlit("bool");
    assert("json"@[0] != "bool"@[0]);
    reveal_strlit("float");
    reveal_strlit("float32");
    reveal_strlit("float64");
    reveal_strlit("double");
    reveal_strlit("uint8");
    reveal_strlit("uint16");
    reveal_strlit("uint32");
    reveal_strlit("uint64");
    reveal_strlit("int8");
    reveal_strlit("int16");
    reveal_strlit("int32");
    reveal_strlit("int64");
    assert("json"@[0] != "int8"@[0]);
}

/// An endpoint is writable exactly when its access text is `rw`, read-only exactly when it is
/// `r`, and of unknown access in every other case, without a text too.
pub proof fn law_access_goes_by_its_text(raw: Option<Seq<char>>)
    ensures
        access_of(raw) is ReadWrite <==> raw == Some("rw"@),
        access_of(raw) is ReadOnly <==> raw == Some("r"@),
{
    reveal_strlit("r");
    reveal_strlit("rw");
    assert("r"@.len() == 1 && "rw"@.len() == 2);
}

/// A parsed descriptor keeps its text, and its endpoints are those that the document describes,
/// from the empty path on; a text that is no document is refused with the message of the parser.
pub proof fn law_maps_hold_what_the_document_describes(json: Seq<char>)
    ensures
        match json::json_document(json) {
            Ok(root) => parsed(json) matches Ok(map) && map.json == json && map.entries == collect(
                root,
                Seq::empty(),
            ),
            Err(message) => parsed(json) matches Err(fault) && fault.kind
                == error::ErrorKind::Protocol && text::contains_text(fault.text, message),
        },
{
    if let Err(message) = json::json_document(json) {
        let whole = "endpoint descriptor is not valid JSON: "@ + message;
        text::law_contained_texts_stand_between_two_others(whole, message);
        assert(whole =~= "endpoint descriptor is not valid JSON: "@ + message + Seq::<
            char,
        >::empty());
    }
}

/// The number of endpoints with a value grows by one with each entry whose kind is a value or
/// unknown, and does not change with a function, a reference or a nested document.
pub proof fn law_value_counts_leave_functions_out(entries: Seq<EntryView>, entry: EntryView)
    ensures
        values_among(Seq::empty(), 0) == 0,
        values_among(entries.push(entry), entries.len() + 1) == values_among(entries, entries.len())
            + (match entry.kind {
            EndpointKind::Function | EndpointKind::EndpointRef | EndpointKind::Json => 0nat,
            _ => 1,
        }),
{
    lemma_values_agree(entries.push(entry), entries, entries.len());
}

proof fn lemma_values_agree(a: Seq<EntryView>, b: Seq<EntryView>, n: nat)
    requires
        n <= a.len(),
        n <= b.len(),
        forall|i: int| 0 <= i < n ==> a[i] == b[i],
    ensures
        values_among(a, n) == values_among(b, n),
    decreases n,
{
    if n > 0 {
        lemma_values_agree(a, b, (n - 1) as nat);
    }
}

/// Base-16 notation uses upper-case letters.
pub proof fn law_base_16_is_written_in_upper_case(n: nat, width: nat, i: int)
    requires
        0 <= i < text::hex(n, width).len(),
    ensures
        '0' <= text::hex(n, width)[i] <= '9' || 'A' <= text::hex(n, width)[i] <= 'F',
    decreases n, width,
{
    let written = text::hex(n, width);
    if !(n < 16 && width <= 1) {
        let rest: nat = if width <= 1 {
            0
        } else {
            (width - 1) as nat
        };
        if i < written.len() - 1 {
            law_base_16_is_written_in_upper_case(n / 16, rest, i);
        }
    }
}

/// The message for an ambiguous name quotes the name, counts the matches, and lists the id and
/// path of the first eight; it says so when there are more.
pub proof fn law_ambiguous_names_are_listed(
    entries: Seq<EntryView>,
    spec: Seq<char>,
    found: Seq<int>,
    k: int,
)
    requires
        0 <= k < found.len(),
        k < 8,
    ensures
        ({
            let message = ambiguous_text(entries, spec, found);
            let entry = entries[found[k]];
            &&& ("\""@ + spec + "\" is ambiguous: "@ + text::dec(found.len())).is_prefix_of(message)
            &&& text::contains_text(
                message,
                "0x"@ + text::hex(entry.endpoint_id as nat, 4) + " "@ + entry.path,
            )
            &&& found.len() > 8 ==> message.skip(message.len() - 6) == ", ...)"@
        }),
{
    reveal_strlit(")");
    reveal_strlit(", ...)");
    let shown: nat = if found.len() > 8 {
        8
    } else {
        found.len()
    };
    let message = ambiguous_text(entries, spec, found);
    let entry = entries[found[k]];
    let item = "0x"@ + text::hex(entry.endpoint_id as nat, 4) + " "@ + entry.path;
    let end = if found.len() > 8 {
        ", ...)"@
    } else {
        ")"@
    };
    let start = "\""@ + spec + "\" is ambiguous: "@ + text::dec(found.len());
    let list = listing(entries, found, shown);
    assert(message =~= start + " endpoints match ("@ + list + end);
    assert(message.subrange(0, start.len() as int) =~= start);
    lemma_listed(entries, found, shown, k);
    text::law_contained_texts_stand_between_two_others(list, item);
    let (before, after) = choose|before: Seq<char>, after: Seq<char>|
        list == #[trigger] (before + item + after);
    assert(message =~= (start + " endpoints match ("@ + before) + item + (after + end));
    text::law_contained_texts_stand_between_two_others(message, item);
    if found.len() > 8 {
        assert(message.skip(message.len() - 6) =~= ", ...)"@);
    }
}

proof fn lemma_listed(entries: Seq<EntryView>, found: Seq<int>, n: nat, k: int)
    requires
        0 <= k < n <= found.len(),
    ensures
        ({
            let entry = entries[found[k]];
            text::contains_text(
                listing(entries, found, n),
                "0x"@ + text::hex(entry.endpoint_id as nat, 4) + " "@ + entry.path,
            )
        }),
    decreases n,
{
    let entry = entries[found[k]];
    let item = "0x"@ + text::hex(entry.endpoint_id as nat, 4) + " "@ + entry.path;
    let list = listing(entries, found, n);
    let rest = listing(entries, found, (n - 1) as nat);
    if k < n - 1 {
        lemma_listed(entries, found, (n - 1) as nat, k);
        text::law_contained_texts_stand_between_two_others(rest, item);
        let (before, after) = choose|before: Seq<char>, after: Seq<char>|
            rest == #[trigger] (before + item + after);
        let tail = list.skip(rest.len() as int);
        assert(list =~= rest + tail);
        assert(list =~= before + item + (after + tail));
    } else {
        let sep = if n == 1 {
            Seq::empty()
        } else {
            ", "@
        };
        assert(list =~= (rest + sep) + item + Seq::<char>::empty());
    }
    text::law_contained_texts_stand_between_two_others(list, item);
}

/// The message for a name without a match quotes the name, and the one for a missing id shows the
/// id in base 16.
pub proof fn law_refusals_name_what_was_asked(
    spec: Seq<char>,
    count: nat,
    endpoint_id: u16,
    version_crc: u16,
)
    ensures
        text::contains_text(unmatched_text(spec, count), spec),
        text::contains_text(unmatched_text(spec, count), text::dec(count)),
        ("endpoint 0x"@ + text::hex(endpoint_id as nat, 4)).is_prefix_of(
            unknown_id_text(endpoint_id, count, version_crc),
        ),
{
    let a = "no endpoint matches \""@;
    let b = "\" in the device's endpoint map ("@;
    let c = " entries); use `find-endpoint --name <substring>` to search it"@;
    let message = unmatched_text(spec, count);
    assert(message =~= a + spec + (b + text::dec(count) + c));
    text::law_contained_texts_stand_between_two_others(message, spec);
    assert(message =~= (a + spec + b) + text::dec(count) + c);
    text::law_contained_texts_stand_between_two_others(message, text::dec(count));
    let head = "endpoint 0x"@ + text::hex(endpoint_id as nat, 4);
    assert(unknown_id_text(endpoint_id, count, version_crc).subrange(0, head.len() as int) =~= head);
}

/// The summary of a map counts its endpoints first, then those with a value, and ends with its
/// version in base 16.
pub proof fn law_summaries_count_endpoints(map: MapView)
    ensures
        (text::dec(map.entries.len()) + " endpoints ("@ + text::dec(
            values_among(map.entries, map.entries.len()),
        ) + " values), "@ + text::dec(map.total_len as nat) + " bytes"@).is_prefix_of(
            summary_text(map),
        ),
        exists|before: Seq<char>|
            summary_text(map) == #[trigger] (before + text::hex(map.version_crc as nat, 4)),
{
    reveal_strlit(" bytes");
    reveal_strlit(" bytes, VersionCRC=0x");
    let head = text::dec(map.entries.len()) + " endpoints ("@ + text::dec(
        values_among(map.entries, map.entries.len()),
    ) + " values), "@ + text::dec(map.total_len as nat) + " bytes"@;
    let line = summary_text(map);
    let crc = text::hex(map.version_crc as nat, 4);
    assert(line.subrange(0, head.len() as int) =~= head);
    let before = line.take(line.len() - crc.len());
    assert(line =~= before + crc);
}

} // verus!

//! Control messages to the app, reports from it, and the packets that carry
//! both.

use vstd::prelude::*;

use crate::dglab::json;
use crate::text;
use crate::text::{
    chars_of, only_hex, parse_u16, push_decimal, same_text, split_text, split_words, string_of,
    to_lower, to_upper, trim_text, CharClass,
};
use crate::types;
use crate::types::{lesser, DglabChannel, MAX_STRENGTH};

verus! {

/// The greatest number of characters in a packet's text.
pub const MAX_JSON_CHARS: usize = 1_950;

/// The greatest number of items in a pulse message.
pub const MAX_PULSE_ITEMS: usize = 100;

/// The length of a pulse item.
pub const PULSE_HEX_CHARS: usize = 16;

pub const MESSAGE_TARGET_ID: &'static str = "targetId";

pub const MESSAGE_DGLAB: &'static str = "DGLAB";

pub const CODE_OK: &'static str = "200";

pub const CODE_QR_CLIENT_ID_INVALID: &'static str = "210";

pub const CODE_BIND_TARGET_NOT_FOUND: &'static str = "401";

pub const CODE_NOT_BOUND: &'static str = "402";

pub const CODE_INVALID_JSON: &'static str = "403";

pub const CODE_RECEIVER_OFFLINE: &'static str = "404";

pub const CODE_MESSAGE_TOO_LONG: &'static str = "405";

pub const CODE_INTERNAL_ERROR: &'static str = "500";

/// How a strength message changes the strength.
#[derive(Debug, Clone, Copy, PartialEq, Eq, Structural, Default)]
pub enum StrengthControlMode {
    Decrease,
    Increase,
    #[default]
    SetValue,
}

impl StrengthControlMode {
    pub open spec fn name(self) -> Seq<char> {
        match self {
            StrengthControlMode::Decrease => "Decrease"@,
            StrengthControlMode::Increase => "Increase"@,
            StrengthControlMode::SetValue => "Set"@,
        }
    }

    pub open spec fn code(self) -> u8 {
        match self {
            StrengthControlMode::Decrease => 0,
            StrengthControlMode::Increase => 1,
            StrengthControlMode::SetValue => 2,
        }
    }

    pub fn label(self) -> (r: &'static str)
        ensures
            r@ == self.name(),
    {
        match self {
            StrengthControlMode::Decrease => "Decrease",
            StrengthControlMode::Increase => "Increase",
            StrengthControlMode::SetValue => "Set",
        }
    }

    pub fn opcode(self) -> (r: u8)
        ensures
            r == self.code(),
    {
        match self {
            StrengthControlMode::Decrease => 0,
            StrengthControlMode::Increase => 1,
            StrengthControlMode::SetValue => 2,
        }
    }
}

/// `strength-<channel>+<mode>+<value>`, with the value limited to the maximum
/// strength.
pub open spec fn strength_text(channel: DglabChannel, mode: StrengthControlMode, value: u16) -> Seq<
    char,
> {
    "strength-"@ + text::decimal(channel.id() as nat) + "+"@ + text::decimal(mode.code() as nat) + "+"@
        + text::decimal(types::min_u16(value, MAX_STRENGTH) as nat)
}

pub fn build_strength_message(channel: DglabChannel, mode: StrengthControlMode, value: u16) -> (r:
    String)
    ensures
        r@ == strength_text(channel, mode, value),
{
    let mut r = "strength-".to_owned();
    push_decimal(&mut r, channel.strength_channel_id() as u64);
    r.append("+");
    push_decimal(&mut r, mode.opcode() as u64);
    r.append("+");
    push_decimal(&mut r, lesser(value, MAX_STRENGTH) as u64);
    r
}

/// `clear-<channel>`.
pub open spec fn clear_text(channel: DglabChannel) -> Seq<char> {
    "clear-"@ + text::decimal(channel.id() as nat)
}

pub fn build_clear_message(channel: DglabChannel) -> (r: String)
    ensures
        r@ == clear_text(channel),
{
    let mut r = "clear-".to_owned();
    push_decimal(&mut r, channel.strength_channel_id() as u64);
    r
}

/// An item that holds sixteen hexadecimal digits once white space around it is
/// gone.
pub open spec fn pulse_item_ok(item: Seq<char>) -> bool {
    text::trimmed(item).len() == PULSE_HEX_CHARS && text::all_hex(text::trimmed(item))
}

/// The form in which an item is sent.
pub open spec fn pulse_item_sent(item: Seq<char>) -> Seq<char> {
    text::upper(text::trimmed(item))
}

/// The position of the first item that is not acceptable, or their number.
pub open spec fn first_bad_item(items: Seq<Seq<char>>) -> int
    decreases items.len(),
{
    if items.len() == 0 || !pulse_item_ok(items[0]) {
        0
    } else {
        1 + first_bad_item(items.drop_first())
    }
}

pub open spec fn bad_item_text(item: Seq<char>) -> Seq<char> {
    "invalid pulse item `"@ + item
        + "`. each item must be 16 HEX chars, e.g. 0A0A0A0A00000000"@
}

pub open spec fn too_many_items_text(n: nat) -> Seq<char> {
    "too many pulse items: "@ + text::decimal(n) + " (max "@ + text::decimal(MAX_PULSE_ITEMS as nat) + ")"@
}

/// `pulse-<channel>:<JSON list of the items>`.
pub open spec fn pulse_text(channel: DglabChannel, items: Seq<Seq<char>>) -> Seq<char> {
    "pulse-"@ + channel.name() + ":"@ + json::json_list(
        Seq::new(items.len(), |i: int| pulse_item_sent(items[i])),
    )
}

/// The message that carries `items`, or why there is none: the first item that
/// is not acceptable, no item at all, or too many of them.
pub open spec fn pulse_outcome(channel: DglabChannel, items: Seq<Seq<char>>) -> Result<
    Seq<char>,
    Seq<char>,
> {
    if first_bad_item(items) < items.len() {
        Err(bad_item_text(items[first_bad_item(items)]))
    } else if items.len() == 0 {
        Err("no pulse item provided"@)
    } else if items.len() > MAX_PULSE_ITEMS {
        Err(too_many_items_text(items.len()))
    } else {
        Ok(pulse_text(channel, items))
    }
}

/// Whether a result holds the text, or the error text, of `expected`.
pub open spec fn tells(r: Result<String, String>, expected: Result<Seq<char>, Seq<char>>) -> bool {
    match r {
        Ok(text) => expected == Ok::<Seq<char>, Seq<char>>(text@),
        Err(text) => expected == Err::<Seq<char>, Seq<char>>(text@),
    }
}

proof fn lemma_first_bad_item(items: Seq<Seq<char>>, i: int)
    requires
        0 <= i <= items.len(),
        forall|j: int| 0 <= j < i ==> pulse_item_ok(#[trigger] items[j]),
        i < items.len() ==> !pulse_item_ok(items[i]),
    ensures
        first_bad_item(items) == i,
    decreases i,
{
    if i > 0 {
        let t = items.drop_first();
        assert(pulse_item_ok(items[0]));
        assert forall|j: int| 0 <= j < i - 1 implies pulse_item_ok(#[trigger] t[j]) by {
            assert(t[j] == items[j + 1]);
        }
        lemma_first_bad_item(t, i - 1);
    }
}

proof fn lemma_upper_keeps_hex(s: Seq<char>)
    ensures
        text::all_hex(text::upper(s)) == text::all_hex(s),
{
    assert forall|i: int| 0 <= i < s.len() implies text::is_hex(text::upper(s)[i]) == text::is_hex(s[i]) by {
        assert(text::upper(s)[i] == text::upper_char(s[i]));
    }
    if text::all_hex(text::upper(s)) {
        assert forall|i: int| 0 <= i < s.len() implies text::is_hex(#[trigger] s[i]) by {
            assert(text::is_hex(text::upper(s)[i]));
        }
    }
}

/// Builds the message that carries `raw_items`.
pub fn build_pulse_message_from_items(channel: DglabChannel, raw_items: &Vec<String>) -> (r: Result<
    String,
    String,
>)
    ensures
        tells(r, pulse_outcome(channel, text::views(raw_items@))),
{
    let ghost given = text::views(raw_items@);
    let mut items: Vec<String> = Vec::new();
    let mut i: usize = 0;
    while i < raw_items.len()
        invariant
            given == text::views(raw_items@),
            i <= raw_items@.len(),
            items@.len() == i,
            forall|j: int| 0 <= j < i ==> pulse_item_ok(#[trigger] given[j]),
            forall|j: int| 0 <= j < i ==> (#[trigger] items@[j])@ == pulse_item_sent(given[j]),
        decreases raw_items@.len() - i,
    {
        let normalized = to_upper(trim_text(raw_items[i].as_str()));
        assert(given[i as int] == raw_items@[i as int]@);
        proof {
            lemma_upper_keeps_hex(text::trimmed(given[i as int]));
        }
        if normalized.as_str().unicode_len() != PULSE_HEX_CHARS || !only_hex(normalized.as_str()) {
            let mut text = "invalid pulse item `".to_owned();
            text.append(raw_items[i].as_str());
            text.append("`. each item must be 16 HEX chars, e.g. 0A0A0A0A00000000");
            proof {
                lemma_first_bad_item(given, i as int);
            }
            return Err(text);
        }
        items.push(normalized);
        i += 1;
    }
    proof {
        lemma_first_bad_item(given, given.len() as int);
    }
    if items.len() == 0 {
        return Err("no pulse item provided".to_owned());
    }
    if items.len() > MAX_PULSE_ITEMS {
        let mut text = "too many pulse items: ".to_owned();
        push_decimal(&mut text, items.len() as u64);
        text.append(" (max ");
        push_decimal(&mut text, MAX_PULSE_ITEMS as u64);
        text.append(")");
        return Err(text);
    }
    let list = match json::strings_to_json(&items) {
        Ok(list) => list,
        Err(text) => return Err(text),
    };
    let mut text = "pulse-".to_owned();
    text.append(channel.pulse_symbol());
    text.append(":");
    text.append(list.as_str());
    assert(text::views(items@) =~= Seq::new(given.len(), |j: int| pulse_item_sent(given[j])));
    Ok(text)
}

/// The items that a text names, in upper case: white space, commas, semicolons
/// and bars stand between them.
pub open spec fn named_items(raw: Seq<char>) -> Seq<Seq<char>> {
    let words = text::words(raw, CharClass::PulseGap);
    Seq::new(words.len(), |i: int| text::upper(words[i]))
}

/// Builds the message that carries the items named in `raw_hex_items`.
pub fn build_pulse_message(channel: DglabChannel, raw_hex_items: &str) -> (r: Result<String, String>)
    ensures
        tells(r, pulse_outcome(channel, named_items(raw_hex_items@))),
{
    let words = split_words(raw_hex_items, CharClass::PulseGap);
    let ghost given = text::words(raw_hex_items@, CharClass::PulseGap);
    let mut items: Vec<String> = Vec::new();
    let mut i: usize = 0;
    while i < words.len()
        invariant
            text::views(words@) == given,
            i <= words@.len(),
            items@.len() == i,
            forall|j: int| 0 <= j < i ==> (#[trigger] items@[j])@ == text::upper(given[j]),
        decreases words@.len() - i,
    {
        assert(given[i as int] == words@[i as int]@);
        items.push(to_upper(words[i].as_str()));
        i += 1;
    }
    assert(text::views(items@) =~= named_items(raw_hex_items@));
    build_pulse_message_from_items(channel, &items)
}

/// What the app reports of both channels.
#[derive(Debug, Clone, Copy, PartialEq, Eq, Structural)]
pub struct StrengthReport {
    pub a_strength: u16,
    pub b_strength: u16,
    pub a_soft_limit: u16,
    pub b_soft_limit: u16,
}

impl StrengthReport {
    /// No value is above the maximum strength.
    pub open spec fn in_range(self) -> bool {
        &&& self.a_strength <= MAX_STRENGTH
        &&& self.b_strength <= MAX_STRENGTH
        &&& self.a_soft_limit <= MAX_STRENGTH
        &&& self.b_soft_limit <= MAX_STRENGTH
    }

    /// `strength-<A>+<B>+<limit of A>+<limit of B>`.
    pub open spec fn text(self) -> Seq<char> {
        "strength-"@ + decimals_with_plus(
            self.a_strength as nat,
            self.b_strength as nat,
            self.a_soft_limit as nat,
            self.b_soft_limit as nat,
        )
    }
}

pub open spec fn decimals_with_plus(a: nat, b: nat, c: nat, d: nat) -> Seq<char> {
    text::decimal(a) + seq!['+'] + text::decimal(b) + seq!['+'] + text::decimal(c) + seq!['+']
        + text::decimal(d)
}

/// The report in a message: `strength-` in any case and four numbers up to the
/// maximum strength with plus signs between them.
pub open spec fn report_in(message: Seq<char>) -> Option<StrengthReport> {
    let t = text::trimmed(message);
    let parts = text::split(t.skip(9), '+');
    let top = MAX_STRENGTH as nat;
    if t.len() >= 9 && text::lower(t.take(9)) == "strength-"@ && parts.len() == 4 {
        match (
            text::read_decimal(parts[0], top),
            text::read_decimal(parts[1], top),
            text::read_decimal(parts[2], top),
            text::read_decimal(parts[3], top),
        ) {
            (Some(a), Some(b), Some(c), Some(d)) => Some(
                StrengthReport {
                    a_strength: a as u16,
                    b_strength: b as u16,
                    a_soft_limit: c as u16,
                    b_soft_limit: d as u16,
                },
            ),
            _ => None,
        }
    } else {
        None
    }
}

/// A report that can be read is in range.
pub proof fn law_read_report_is_in_range(message: Seq<char>)
    ensures
        report_in(message) matches Some(report) ==> report.in_range(),
{
}

fn parse_strength_value(part: &str) -> (r: Option<u16>)
    ensures
        match r {
            Some(n) => text::read_decimal(part@, MAX_STRENGTH as nat) == Some(n as nat),
            None => text::read_decimal(part@, MAX_STRENGTH as nat) is None,
        },
{
    match parse_u16(part) {
        Some(n) => if n <= MAX_STRENGTH {
            Some(n)
        } else {
            None
        },
        None => None,
    }
}

/// Reads a strength report.
pub fn parse_strength_report(message: &str) -> (r: Option<StrengthReport>)
    ensures
        r == report_in(message@),
        r matches Some(report) ==> report.in_range(),
{
    let chars = chars_of(trim_text(message));
    if chars.len() < 9 {
        return None;
    }
    let prefix = to_lower(string_of(&chars, 0, 9).as_str());
    assert(chars@.subrange(0, 9) =~= chars@.take(9));
    if !same_text(prefix.as_str(), "strength-") {
        return None;
    }
    let payload = string_of(&chars, 9, chars.len());
    assert(payload@ =~= chars@.skip(9));
    let parts = split_text(payload.as_str(), '+');
    let ghost given = text::split(payload@, '+');
    assert(given.len() == parts@.len());
    if parts.len() != 4 {
        return None;
    }
    assert(given[0] == parts@[0]@ && given[1] == parts@[1]@ && given[2] == parts@[2]@ && given[3]
        == parts@[3]@);
    match (
        parse_strength_value(parts[0].as_str()),
        parse_strength_value(parts[1].as_str()),
        parse_strength_value(parts[2].as_str()),
        parse_strength_value(parts[3].as_str()),
    ) {
        (Some(a_strength), Some(b_strength), Some(a_soft_limit), Some(b_soft_limit)) => Some(
            StrengthReport { a_strength, b_strength, a_soft_limit, b_soft_limit },
        ),
        _ => None,
    }
}

/// The kinds of packets.
#[derive(Debug, Clone, Copy, PartialEq, Eq, Structural)]
pub enum PacketType {
    Heartbeat,
    Bind,
    Msg,
    Break,
    Error,
}

impl PacketType {
    pub open spec fn name(self) -> Seq<char> {
        match self {
            PacketType::Heartbeat => "heartbeat"@,
            PacketType::Bind => "bind"@,
            PacketType::Msg => "msg"@,
            PacketType::Break => "break"@,
            PacketType::Error => "error"@,
        }
    }

    /// The kind with the given name.
    pub open spec fn named(value: Seq<char>) -> Option<PacketType> {
        if value == "heartbeat"@ {
            Some(PacketType::Heartbeat)
        } else if value == "bind"@ {
            Some(PacketType::Bind)
        } else if value == "msg"@ {
            Some(PacketType::Msg)
        } else if value == "break"@ {
            Some(PacketType::Break)
        } else if value == "error"@ {
            Some(PacketType::Error)
        } else {
            None
        }
    }

    pub fn as_str(self) -> (r: &'static str)
        ensures
            r@ == self.name(),
    {
        match self {
            PacketType::Heartbeat => "heartbeat",
            PacketType::Bind => "bind",
            PacketType::Msg => "msg",
            PacketType::Break => "break",
            PacketType::Error => "error",
        }
    }

    pub fn parse(value: &str) -> (r: Option<PacketType>)
        ensures
            r == PacketType::named(value@),
    {
        if same_text(value, "heartbeat") {
            Some(PacketType::Heartbeat)
        } else if same_text(value, "bind") {
            Some(PacketType::Bind)
        } else if same_text(value, "msg") {
            Some(PacketType::Msg)
        } else if same_text(value, "break") {
            Some(PacketType::Break)
        } else if same_text(value, "error") {
            Some(PacketType::Error)
        } else {
            None
        }
    }
}

/// A packet between the server and the app.
#[derive(Debug, PartialEq, Eq)]
pub struct SocketPacket {
    pub packet_type: String,
    pub client_id: String,
    pub target_id: String,
    pub message: String,
}

/// The four texts of a packet.
#[verifier::ext_equal]
pub struct PacketView {
    pub packet_type: Seq<char>,
    pub client_id: Seq<char>,
    pub target_id: Seq<char>,
    pub message: Seq<char>,
}

impl PacketView {
    /// A packet of the given kind.
    pub open spec fn of(
        kind: PacketType,
        client_id: Seq<char>,
        target_id: Seq<char>,
        message: Seq<char>,
    ) -> PacketView {
        PacketView { packet_type: kind.name(), client_id, target_id, message }
    }

    pub open spec fn kind(self) -> Option<PacketType> {
        PacketType::named(text::trimmed(self.packet_type))
    }

    /// No text is blank.
    pub open spec fn complete(self) -> bool {
        &&& text::trimmed(self.packet_type).len() > 0
        &&& text::trimmed(self.client_id).len() > 0
        &&& text::trimmed(self.target_id).len() > 0
        &&& text::trimmed(self.message).len() > 0
    }

    /// The JSON object of the packet, without white space.
    pub open spec fn json(self) -> Seq<char> {
        "{\"type\":"@ + json::json_string(self.packet_type) + ",\"clientId\":"@ + json::json_string(
            self.client_id,
        ) + ",\"targetId\":"@ + json::json_string(self.target_id) + ",\"message\":"@
            + json::json_string(self.message) + "}"@
    }
}

impl View for SocketPacket {
    type V = PacketView;

    open spec fn view(&self) -> PacketView {
        PacketView {
            packet_type: self.packet_type@,
            client_id: self.client_id@,
            target_id: self.target_id@,
            message: self.message@,
        }
    }
}

impl Clone for SocketPacket {
    fn clone(&self) -> (r: SocketPacket)
        ensures
            r@ == self@,
    {
        SocketPacket {
            packet_type: self.packet_type.clone(),
            client_id: self.client_id.clone(),
            target_id: self.target_id.clone(),
            message: self.message.clone(),
        }
    }
}

impl SocketPacket {
    pub fn new(packet_type: &str, client_id: &str, target_id: &str, message: &str) -> (r: SocketPacket)
        ensures
            r@ == (PacketView {
                packet_type: packet_type@,
                client_id: client_id@,
                target_id: target_id@,
                message: message@,
            }),
    {
        SocketPacket {
            packet_type: packet_type.to_owned(),
            client_id: client_id.to_owned(),
            target_id: target_id.to_owned(),
            message: message.to_owned(),
        }
    }

    pub fn from_type(packet_type: PacketType, client_id: &str, target_id: &str, message: &str) -> (r:
        SocketPacket)
        ensures
            r@ == PacketView::of(packet_type, client_id@, target_id@, message@),
    {
        SocketPacket::new(packet_type.as_str(), client_id, target_id, message)
    }

    /// Tells a connection the id that it has been given.
    pub fn bind_assign_current_id(current_id: &str) -> (r: SocketPacket)
        ensures
            r@ == PacketView::of(PacketType::Bind, current_id@, ""@, "targetId"@),
    {
        SocketPacket::from_type(PacketType::Bind, current_id, "", MESSAGE_TARGET_ID)
    }

    pub fn bind_result(client_id: &str, target_id: &str, code: &str) -> (r: SocketPacket)
        ensures
            r@ == PacketView::of(PacketType::Bind, client_id@, target_id@, code@),
    {
        SocketPacket::from_type(PacketType::Bind, client_id, target_id, code)
    }

    pub fn heartbeat(client_id: &str, target_id: &str, code: &str) -> (r: SocketPacket)
        ensures
            r@ == PacketView::of(PacketType::Heartbeat, client_id@, target_id@, code@),
    {
        SocketPacket::from_type(PacketType::Heartbeat, client_id, target_id, code)
    }

    pub fn msg(client_id: &str, target_id: &str, message: &str) -> (r: SocketPacket)
        ensures
            r@ == PacketView::of(PacketType::Msg, client_id@, target_id@, message@),
    {
        SocketPacket::from_type(PacketType::Msg, client_id, target_id, message)
    }

    pub fn break_packet(client_id: &str, target_id: &str, code: &str) -> (r: SocketPacket)
        ensures
            r@ == PacketView::of(PacketType::Break, client_id@, target_id@, code@),
    {
        SocketPacket::from_type(PacketType::Break, client_id, target_id, code)
    }

    pub fn error(client_id: &str, target_id: &str, code: &str) -> (r: SocketPacket)
        ensures
            r@ == PacketView::of(PacketType::Error, client_id@, target_id@, code@),
    {
        SocketPacket::from_type(PacketType::Error, client_id, target_id, code)
    }

    /// The kind of the packet, if its type names one.
    pub fn kind(&self) -> (r: Option<PacketType>)
        ensures
            r == self@.kind(),
    {
        PacketType::parse(trim_text(self.packet_type.as_str()))
    }

    pub fn has_required_non_empty_values(&self) -> (r: bool)
        ensures
            r == self@.complete(),
    {
        trim_text(self.packet_type.as_str()).unicode_len() > 0 && trim_text(
            self.client_id.as_str(),
        ).unicode_len() > 0 && trim_text(self.target_id.as_str()).unicode_len() > 0 && trim_text(
            self.message.as_str(),
        ).unicode_len() > 0
    }

    /// The text of the packet on the wire.
    pub fn to_json(&self) -> (r: Result<String, String>)
        ensures
            tells(r, Ok(self@.json())),
    {
        let mut text = "{\"type\":".to_owned();
        text.append(json::string_to_json(self.packet_type.as_str())?.as_str());
        text.append(",\"clientId\":");
        text.append(json::string_to_json(self.client_id.as_str())?.as_str());
        text.append(",\"targetId\":");
        text.append(json::string_to_json(self.target_id.as_str())?.as_str());
        text.append(",\"message\":");
        text.append(json::string_to_json(self.message.as_str())?.as_str());
        text.append("}");
        Ok(text)
    }
}

proof fn lemma_no_plus(n: nat)
    ensures
        !text::decimal(n).contains('+'),
{
    text::lemma_decimal_number(n);
    let s = text::decimal(n);
    assert forall|i: int| 0 <= i < s.len() implies s[i] != '+' by {
        assert(text::is_digit(s[i]));
    }
}

proof fn lemma_split_decimals(a: nat, b: nat, c: nat, d: nat)
    ensures
        text::split(decimals_with_plus(a, b, c, d), '+') == seq![
            text::decimal(a),
            text::decimal(b),
            text::decimal(c),
            text::decimal(d),
        ],
{
    let (ta, tb, tc, td) = (
        text::decimal(a),
        text::decimal(b),
        text::decimal(c),
        text::decimal(d),
    );
    lemma_no_plus(a);
    lemma_no_plus(b);
    lemma_no_plus(c);
    lemma_no_plus(d);
    let rest_c = tc + seq!['+'] + td;
    let rest_b = tb + seq!['+'] + rest_c;
    text::lemma_split_first(td, '+', Seq::empty());
    text::lemma_split_first(tc, '+', td);
    text::lemma_split_first(tb, '+', rest_c);
    text::lemma_split_first(ta, '+', rest_b);
    assert(decimals_with_plus(a, b, c, d) =~= ta + seq!['+'] + rest_b);
    assert(seq![ta] + (seq![tb] + (seq![tc] + seq![td])) =~= seq![ta, tb, tc, td]);
}

/// A report is read back from its text.
pub proof fn law_report_round_trip(report: StrengthReport)
    requires
        report.in_range(),
    ensures
        report_in(report.text()) == Some(report),
{
    let a = report.a_strength as nat;
    let b = report.b_strength as nat;
    let c = report.a_soft_limit as nat;
    let d = report.b_soft_limit as nat;
    let s = report.text();
    let payload = decimals_with_plus(a, b, c, d);
    reveal_strlit("strength-");
    text::lemma_decimal_number(d);
    let last = text::decimal(d).last();
    assert(text::is_digit(text::decimal(d)[text::decimal(d).len() - 1]));
    assert(s.last() == last);
    assert(s[0] == 's');
    assert(text::trimmed(s) == s);
    assert(s.take(9) =~= "strength-"@);
    assert(text::lower("strength-"@) =~= "strength-"@);
    assert(s.skip(9) =~= payload);
    lemma_split_decimals(a, b, c, d);
    text::lemma_read_decimal(a, 200);
    text::lemma_read_decimal(b, 200);
    text::lemma_read_decimal(c, 200);
    text::lemma_read_decimal(d, 200);
}

/// The case of the prefix and white space around a report do not matter.
pub proof fn law_report_ignores_case_and_padding(message: Seq<char>, other: Seq<char>)
    requires
        text::lower(text::trimmed(message)) == text::lower(text::trimmed(other)),
    ensures
        report_in(message) == report_in(other),
{
    let s = text::trimmed(message);
    let t = text::trimmed(other);
    assert(text::lower(s).len() == text::lower(t).len());
    assert forall|i: int| 0 <= i < s.len() implies text::lower_char(s[i]) == text::lower_char(
        t[i],
    ) by {
        assert(text::lower(s)[i] == text::lower(t)[i]);
    }
    if s.len() >= 9 {
        assert(text::lower(s.take(9)) =~= text::lower(t.take(9)));
        let a = s.skip(9);
        let b = t.skip(9);
        assert forall|i: int| 0 <= i < a.len() implies text::lower_char(a[i])
            == text::lower_char(b[i]) by {
            assert(a[i] == s[i + 9] && b[i] == t[i + 9]);
        }
        lemma_split_up_to_case(a, b);
        let pa = text::split(a, '+');
        let pb = text::split(b, '+');
        if pa.len() == 4 {
            lemma_read_up_to_case(pa[0], pb[0], 200);
            lemma_read_up_to_case(pa[1], pb[1], 200);
            lemma_read_up_to_case(pa[2], pb[2], 200);
            lemma_read_up_to_case(pa[3], pb[3], 200);
        }
    }
}

/// Two texts of one length that differ in the case of letters only.
pub open spec fn same_up_to_case(a: Seq<char>, b: Seq<char>) -> bool {
    a.len() == b.len() && forall|i: int|
        0 <= i < a.len() ==> text::lower_char(#[trigger] a[i]) == text::lower_char(b[i])
}

proof fn lemma_split_up_to_case(a: Seq<char>, b: Seq<char>)
    requires
        same_up_to_case(a, b),
    ensures
        text::split(a, '+').len() == text::split(b, '+').len(),
        forall|i: int|
            0 <= i < text::split(a, '+').len() ==> #[trigger] same_up_to_case(
                text::split(a, '+')[i],
                text::split(b, '+')[i],
            ),
    decreases a.len(),
{
    text::lemma_first_at_facts(a, '+');
    text::lemma_first_at_facts(b, '+');
    let at = text::first_at(a, '+');
    assert forall|i: int| 0 <= i < a.len() implies (a[i] == '+') == (b[i] == '+') by {
        assert(text::lower_char(a[i]) == text::lower_char(b[i]));
    }
    text::lemma_first_at(b, '+', at);
    if 0 <= at < a.len() {
        let ra = a.skip(at + 1);
        let rb = b.skip(at + 1);
        assert forall|i: int| 0 <= i < ra.len() implies text::lower_char(#[trigger] ra[i])
            == text::lower_char(rb[i]) by {
            assert(ra[i] == a[i + at + 1] && rb[i] == b[i + at + 1]);
        }
        lemma_split_up_to_case(ra, rb);
        assert(same_up_to_case(a.take(at), b.take(at)));
        let pa = text::split(a, '+');
        let pb = text::split(b, '+');
        assert forall|i: int| 0 <= i < pa.len() implies #[trigger] same_up_to_case(pa[i], pb[i]) by {
            if i > 0 {
                assert(pa[i] == text::split(ra, '+')[i - 1]);
                assert(pb[i] == text::split(rb, '+')[i - 1]);
            }
        }
    }
}

proof fn lemma_number_up_to_case(a: Seq<char>, b: Seq<char>)
    requires
        same_up_to_case(a, b),
        text::all_digits(a),
    ensures
        a == b,
{
    assert forall|i: int| 0 <= i < a.len() implies a[i] == b[i] by {
        assert(text::is_digit(a[i]));
        assert(text::lower_char(a[i]) == text::lower_char(b[i]));
    }
    assert(a =~= b);
}

proof fn lemma_read_up_to_case(a: Seq<char>, b: Seq<char>, max: nat)
    requires
        same_up_to_case(a, b),
    ensures
        text::read_decimal(a, max) == text::read_decimal(b, max),
{
    if a.len() > 0 {
        assert(text::lower_char(a[0]) == text::lower_char(b[0]));
    }
    let pa = text::unsigned_part(a);
    let pb = text::unsigned_part(b);
    assert forall|i: int| 0 <= i < pa.len() implies text::lower_char(#[trigger] pa[i])
        == text::lower_char(pb[i]) by {
        if pa.len() < a.len() {
            assert(pa[i] == a[i + 1] && pb[i] == b[i + 1]);
        }
    }
    if text::all_digits(pa) {
        lemma_number_up_to_case(pa, pb);
    }
    if text::all_digits(pb) {
        lemma_number_up_to_case(pb, pa);
    }
}

/// A strength message never carries more than the maximum strength.
pub proof fn law_strength_message_is_capped(
    channel: DglabChannel,
    mode: StrengthControlMode,
    value: u16,
)
    ensures
        strength_text(channel, mode, value) == strength_text(
            channel,
            mode,
            types::min_u16(value, MAX_STRENGTH),
        ),
{
}

/// An item that is sent has sixteen upper-case hexadecimal digits, and sending
/// it again changes nothing.
pub proof fn law_sent_item_is_normal(item: Seq<char>)
    requires
        pulse_item_ok(item),
    ensures
        pulse_item_sent(item).len() == PULSE_HEX_CHARS,
        text::all_hex(pulse_item_sent(item)),
        text::upper(pulse_item_sent(item)) == pulse_item_sent(item),
        pulse_item_ok(pulse_item_sent(item)),
        pulse_item_sent(pulse_item_sent(item)) == pulse_item_sent(item),
{
    let t = pulse_item_sent(item);
    lemma_upper_keeps_hex(text::trimmed(item));
    assert(text::upper(t) =~= t);
    assert(text::is_hex(t[0]) && text::is_hex(t[t.len() - 1]));
    assert(text::trimmed(t) == t);
}

/// A pulse message is built exactly from one to a hundred acceptable items.
pub proof fn law_pulse_message_when(channel: DglabChannel, items: Seq<Seq<char>>)
    ensures
        pulse_outcome(channel, items) is Ok <==> {
            &&& 1 <= items.len() <= MAX_PULSE_ITEMS
            &&& forall|i: int| 0 <= i < items.len() ==> pulse_item_ok(#[trigger] items[i])
        },
{
    lemma_first_bad_item_facts(items);
}

proof fn lemma_first_bad_item_facts(items: Seq<Seq<char>>)
    ensures
        0 <= first_bad_item(items) <= items.len(),
        forall|j: int| 0 <= j < first_bad_item(items) ==> pulse_item_ok(#[trigger] items[j]),
        first_bad_item(items) < items.len() ==> !pulse_item_ok(items[first_bad_item(items)]),
    decreases items.len(),
{
    if items.len() > 0 && pulse_item_ok(items[0]) {
        let t = items.drop_first();
        lemma_first_bad_item_facts(t);
        assert forall|j: int| 0 <= j < first_bad_item(items) implies pulse_item_ok(
            #[trigger] items[j],
        ) by {
            if j > 0 {
                assert(items[j] == t[j - 1]);
            }
        }
        let f = first_bad_item(items);
        if f < items.len() {
            assert(items[f] == t[f - 1]);
        }
    }
}

/// A kind is found again by its name.
pub proof fn law_packet_type_round_trip(kind: PacketType)
    ensures
        PacketType::named(kind.name()) == Some(kind),
{
    reveal_strlit("heartbeat");
    reveal_strlit("bind");
    reveal_strlit("msg");
    reveal_strlit("break");
    reveal_strlit("error");
    assert("heartbeat"@.len() == 9 && "bind"@.len() == 4 && "msg"@.len() == 3);
    assert("break"@[0] == 'b' && "error"@[0] == 'e');
}

/// A packet of a kind has that kind.
pub proof fn law_packet_kind(
    kind: PacketType,
    client_id: Seq<char>,
    target_id: Seq<char>,
    message: Seq<char>,
)
    ensures
        PacketView::of(kind, client_id, target_id, message).kind() == Some(kind),
{
    law_packet_type_round_trip(kind);
    reveal_strlit("heartbeat");
    reveal_strlit("bind");
    reveal_strlit("msg");
    reveal_strlit("break");
    reveal_strlit("error");
    let s = kind.name();
    assert(s.len() > 0 && !text::is_space(s[0]) && !text::is_space(s.last()));
    assert(text::trimmed(s) == s);
}

/// A strength message names its channel by number, then the mode, then the value
/// up to 200.
pub proof fn law_strength_message_names_channel_mode_and_value(value: u16)
    ensures
        ({
            let shown = text::decimal(
                if value > 200 {
                    200
                } else {
                    value as nat
                },
            );
            &&& strength_text(DglabChannel::A, StrengthControlMode::Decrease, value)
                == "strength-1+0+"@ + shown
            &&& strength_text(DglabChannel::A, StrengthControlMode::Increase, value)
                == "strength-1+1+"@ + shown
            &&& strength_text(DglabChannel::A, StrengthControlMode::SetValue, value)
                == "strength-1+2+"@ + shown
            &&& strength_text(DglabChannel::B, StrengthControlMode::Decrease, value)
                == "strength-2+0+"@ + shown
            &&& strength_text(DglabChannel::B, StrengthControlMode::Increase, value)
                == "strength-2+1+"@ + shown
            &&& strength_text(DglabChannel::B, StrengthControlMode::SetValue, value)
                == "strength-2+2+"@ + shown
        }),
{
    reveal_strlit("strength-");
    reveal_strlit("+");
    reveal_strlit("strength-1+0+");
    reveal_strlit("strength-1+1+");
    reveal_strlit("strength-1+2+");
    reveal_strlit("strength-2+0+");
    reveal_strlit("strength-2+1+");
    reveal_strlit("strength-2+2+");
    let shown = text::decimal(types::min_u16(value, MAX_STRENGTH) as nat);
    assert(text::decimal(0) =~= seq!['0']);
    assert(text::decimal(1) =~= seq!['1']);
    assert(text::decimal(2) =~= seq!['2']);
    assert(strength_text(DglabChannel::A, StrengthControlMode::Decrease, value) =~= "strength-1+0+"@
        + shown);
    assert(strength_text(DglabChannel::A, StrengthControlMode::Increase, value) =~= "strength-1+1+"@
        + shown);
    assert(strength_text(DglabChannel::A, StrengthControlMode::SetValue, value) =~= "strength-1+2+"@
        + shown);
    assert(strength_text(DglabChannel::B, StrengthControlMode::Decrease, value) =~= "strength-2+0+"@
        + shown);
    assert(strength_text(DglabChannel::B, StrengthControlMode::Increase, value) =~= "strength-2+1+"@
        + shown);
    assert(strength_text(DglabChannel::B, StrengthControlMode::SetValue, value) =~= "strength-2+2+"@
        + shown);
}

/// A clear message names its channel by number.
pub proof fn law_clear_message_names_the_channel()
    ensures
        clear_text(DglabChannel::A) == "clear-1"@,
        clear_text(DglabChannel::B) == "clear-2"@,
{
    reveal_strlit("clear-");
    reveal_strlit("clear-1");
    reveal_strlit("clear-2");
    assert(clear_text(DglabChannel::A) =~= "clear-1"@);
    assert(clear_text(DglabChannel::B) =~= "clear-2"@);
}

/// An item is acceptable exactly where sixteen hexadecimal digits are left of it
/// without the white space around it; they are sent in upper case.
pub proof fn law_items_are_sixteen_digits(before: Seq<char>, item: Seq<char>, after: Seq<char>)
    requires
        forall|i: int| 0 <= i < before.len() ==> text::is_space(#[trigger] before[i]),
        forall|i: int| 0 <= i < after.len() ==> text::is_space(#[trigger] after[i]),
        item.len() > 0,
        !text::is_space(item[0]),
        !text::is_space(item.last()),
    ensures
        pulse_item_ok(before + item + after) <==> item.len() == 16 && forall|i: int|
            0 <= i < 16 ==> ('0' <= #[trigger] item[i] <= '9') || ('a' <= item[i] <= 'f') || ('A'
                <= item[i] <= 'F'),
        pulse_item_sent(before + item + after) == text::upper(item),
{
    let s = before + item + after;
    let k = CharClass::Space;
    let from = before.len() as int;
    let to = from + item.len();
    assert forall|i: int| 0 <= i < from implies k.has(#[trigger] s[i]) by {
        assert(s[i] == before[i]);
    }
    assert forall|i: int| to <= i < s.len() implies k.has(#[trigger] s[i]) by {
        assert(s[i] == after[i - to]);
    }
    assert(s[from] == item[0] && s[to - 1] == item.last());
    text::law_trim_leaves_the_middle(s, k, from, to);
    assert(s.subrange(from, to) =~= item);
    if item.len() == 16 {
        if forall|i: int|
            0 <= i < 16 ==> ('0' <= #[trigger] item[i] <= '9') || ('a' <= item[i] <= 'f') || ('A'
                <= item[i] <= 'F') {
            assert forall|i: int| 0 <= i < item.len() implies text::is_hex(#[trigger] item[i]) by {}
        }
        if text::all_hex(item) {
            assert forall|i: int| 0 <= i < 16 implies ('0' <= #[trigger] item[i] <= '9') || ('a'
                <= item[i] <= 'f') || ('A' <= item[i] <= 'F') by {
                assert(text::is_hex(item[i]));
            }
        }
    }
}

/// A pulse message names its channel by letter and carries every item, in order;
/// one bad item or another number of items is answered with its reason, the first
/// bad item before all.
pub proof fn law_pulse_message_carries_its_items(
    channel: DglabChannel,
    items: Seq<Seq<char>>,
    bad: int,
)
    ensures
        pulse_outcome(channel, items) matches Ok(message) ==> {
            let sent = Seq::new(
                items.len(),
                |i: int| text::upper(text::trimmed(items[i])),
            );
            &&& channel == DglabChannel::A ==> message == "pulse-A:"@ + json::json_list(sent)
            &&& channel == DglabChannel::B ==> message == "pulse-B:"@ + json::json_list(sent)
        },
        0 <= bad < items.len() && !pulse_item_ok(items[bad]) && (forall|i: int|
            0 <= i < bad ==> pulse_item_ok(#[trigger] items[i])) ==> pulse_outcome(channel, items)
            == Err::<Seq<char>, Seq<char>>(
            "invalid pulse item `"@ + items[bad]
                + "`. each item must be 16 HEX chars, e.g. 0A0A0A0A00000000"@,
        ),
        items.len() == 0 ==> pulse_outcome(channel, items) == Err::<Seq<char>, Seq<char>>(
            "no pulse item provided"@,
        ),
        items.len() > 100 && (forall|i: int|
            0 <= i < items.len() ==> pulse_item_ok(#[trigger] items[i])) ==> pulse_outcome(
            channel,
            items,
        ) == Err::<Seq<char>, Seq<char>>(
            "too many pulse items: "@ + text::decimal(items.len()) + " (max 100)"@,
        ),
{
    lemma_first_bad_item_facts(items);
    reveal_strlit("pulse-");
    reveal_strlit("A");
    reveal_strlit("B");
    reveal_strlit(":");
    reveal_strlit("pulse-A:");
    reveal_strlit("pulse-B:");
    reveal_strlit(" (max ");
    reveal_strlit(")");
    reveal_strlit(" (max 100)");
    let sent = Seq::new(items.len(), |i: int| text::upper(text::trimmed(items[i])));
    assert(Seq::new(items.len(), |i: int| pulse_item_sent(items[i])) =~= sent);
    assert("pulse-"@ + "A"@ + ":"@ =~= "pulse-A:"@);
    assert("pulse-"@ + "B"@ + ":"@ =~= "pulse-B:"@);
    if 0 <= bad < items.len() && !pulse_item_ok(items[bad]) && (forall|i: int|
        0 <= i < bad ==> pulse_item_ok(#[trigger] items[i])) {
        lemma_first_bad_item(items, bad);
    }
    if forall|i: int| 0 <= i < items.len() ==> pulse_item_ok(#[trigger] items[i]) {
        lemma_first_bad_item(items, items.len() as int);
        text::law_decimal_notation(10, 0);
        text::law_decimal_notation(1, 0);
        assert(text::decimal(100) =~= seq!['1', '0', '0']);
        assert(too_many_items_text(items.len()) =~= "too many pulse items: "@ + text::decimal(
            items.len(),
        ) + " (max 100)"@);
    }
}

/// The items that a text names are its words, in order and in upper case.
pub proof fn law_named_items_are_the_words(raw: Seq<char>, i: int)
    requires
        0 <= i < text::words(raw, CharClass::PulseGap).len(),
    ensures
        named_items(raw).len() == text::words(raw, CharClass::PulseGap).len(),
        named_items(raw)[i] == text::upper(text::words(raw, CharClass::PulseGap)[i]),
{
}

/// A report is read exactly where, without white space around it, the message is
/// the prefix in any case and four numbers up to 200 with plus signs between
/// them; the numbers are the strengths of A and B and then their limits.
pub proof fn law_report_is_read_from_four_numbers(
    message: Seq<char>,
    prefix: Seq<char>,
    a: Seq<char>,
    b: Seq<char>,
    c: Seq<char>,
    d: Seq<char>,
)
    requires
        text::lower(prefix) == "strength-"@,
        !a.contains('+') && !b.contains('+') && !c.contains('+') && !d.contains('+'),
        text::trimmed(message) == prefix + a + seq!['+'] + b + seq!['+'] + c + seq!['+'] + d,
    ensures
        report_in(message) is Some <==> {
            &&& text::read_decimal(a, 200) is Some
            &&& text::read_decimal(b, 200) is Some
            &&& text::read_decimal(c, 200) is Some
            &&& text::read_decimal(d, 200) is Some
        },
        report_in(message) matches Some(report) ==> {
            &&& text::read_decimal(a, 200) == Some(report.a_strength as nat)
            &&& text::read_decimal(b, 200) == Some(report.b_strength as nat)
            &&& text::read_decimal(c, 200) == Some(report.a_soft_limit as nat)
            &&& text::read_decimal(d, 200) == Some(report.b_soft_limit as nat)
        },
{
    reveal_strlit("strength-");
    let t = text::trimmed(message);
    assert(text::lower(prefix).len() == 9);
    let rest_c = c + seq!['+'] + d;
    let rest_b = b + seq!['+'] + rest_c;
    let payload = a + seq!['+'] + rest_b;
    assert(t.take(9) =~= prefix);
    assert(t.skip(9) =~= payload);
    text::lemma_split_first(d, '+', Seq::empty());
    text::lemma_split_first(c, '+', d);
    text::lemma_split_first(b, '+', rest_c);
    text::lemma_split_first(a, '+', rest_b);
    assert(text::split(payload, '+') =~= seq![a, b, c, d]);
}

/// A message that does not begin with the prefix, or does not have three plus
/// signs after it, is no report.
pub proof fn law_other_messages_are_no_report(message: Seq<char>)
    ensures
        ({
            let t = text::trimmed(message);
            t.len() < 9 || text::lower(t.take(9)) != "strength-"@ || text::count(t.skip(9), '+') != 3
        }) ==> report_in(message) is None,
{
    text::lemma_split_count(text::trimmed(message).skip(9), '+');
}

/// A kind of packet is named by its word, white space around it aside; other
/// words name none.
pub proof fn law_kinds_have_their_words(packet: PacketView)
    ensures
        packet.kind() == Some(PacketType::Heartbeat) <==> text::trimmed(packet.packet_type)
            == "heartbeat"@,
        packet.kind() == Some(PacketType::Bind) <==> text::trimmed(packet.packet_type) == "bind"@,
        packet.kind() == Some(PacketType::Msg) <==> text::trimmed(packet.packet_type) == "msg"@,
        packet.kind() == Some(PacketType::Break) <==> text::trimmed(packet.packet_type) == "break"@,
        packet.kind() == Some(PacketType::Error) <==> text::trimmed(packet.packet_type) == "error"@,
{
    reveal_strlit("heartbeat");
    reveal_strlit("bind");
    reveal_strlit("msg");
    reveal_strlit("break");
    reveal_strlit("error");
    assert("heartbeat"@.len() == 9 && "bind"@.len() == 4 && "msg"@.len() == 3);
    assert("break"@[0] == 'b' && "error"@[0] == 'e');
}

/// A packet is complete exactly where each of its four texts has a character that
/// is not white space.
pub proof fn law_complete_packets_have_no_blank_text(packet: PacketView)
    ensures
        packet.complete() <==> {
            &&& exists|i: int|
                0 <= i < packet.packet_type.len() && !text::is_space(#[trigger] packet.packet_type[i])
            &&& exists|i: int|
                0 <= i < packet.client_id.len() && !text::is_space(#[trigger] packet.client_id[i])
            &&& exists|i: int|
                0 <= i < packet.target_id.len() && !text::is_space(#[trigger] packet.target_id[i])
            &&& exists|i: int|
                0 <= i < packet.message.len() && !text::is_space(#[trigger] packet.message[i])
        },
{
    text::law_blank_texts_have_white_space_only(packet.packet_type);
    text::law_blank_texts_have_white_space_only(packet.client_id);
    text::law_blank_texts_have_white_space_only(packet.target_id);
    text::law_blank_texts_have_white_space_only(packet.message);
}

/// A packet of a kind carries the kind's word and the three texts unchanged.
pub proof fn law_packets_carry_their_texts(
    client_id: Seq<char>,
    target_id: Seq<char>,
    message: Seq<char>,
)
    ensures
        PacketView::of(PacketType::Heartbeat, client_id, target_id, message) == (PacketView {
            packet_type: "heartbeat"@,
            client_id,
            target_id,
            message,
        }),
        PacketView::of(PacketType::Bind, client_id, target_id, message) == (PacketView {
            packet_type: "bind"@,
            client_id,
            target_id,
            message,
        }),
        PacketView::of(PacketType::Msg, client_id, target_id, message) == (PacketView {
            packet_type: "msg"@,
            client_id,
            target_id,
            message,
        }),
        PacketView::of(PacketType::Break, client_id, target_id, message) == (PacketView {
            packet_type: "break"@,
            client_id,
            target_id,
            message,
        }),
        PacketView::of(PacketType::Error, client_id, target_id, message) == (PacketView {
            packet_type: "error"@,
            client_id,
            target_id,
            message,
        }),
{
}

/// The text of a packet names its four parts, each spelled as a JSON string.
pub proof fn law_packet_text_has_four_parts(packet: PacketView)
    ensures
        packet.json() == "{\"type\":"@ + json::json_string(packet.packet_type) + ",\"clientId\":"@
            + json::json_string(packet.client_id) + ",\"targetId\":"@ + json::json_string(
            packet.target_id,
        ) + ",\"message\":"@ + json::json_string(packet.message) + "}"@,
{
}

} // verus!

//! Blank-id rejection, unsafe-id rejection, event-list limit capping, and
//! path-segment encoding for ops UI hrefs.

use vstd::prelude::*;

use crate::text::{is_control_char, str_chars, trim_bounds};
use crate::types::PhotonIdError;

verus! {

/// Maximum events returned by a single `get_events` / `get_recent_events` call.
pub const MAX_EVENT_LIST_LIMIT: u32 = 100;

/// Maximum Unicode scalar count for topic names, subscription ids, and event ids
/// accepted by ops detail lookups.
pub const MAX_PHOTON_ID_CHARS: usize = 256;

/// Why an id was refused, before it is named for the kind of id.
#[derive(Debug, Clone, Copy, PartialEq, Eq, Structural)]
pub enum PhotonIdErrorKind {
    /// Nothing but whitespace.
    Empty,
    /// More than [`MAX_PHOTON_ID_CHARS`] characters after trimming.
    TooLong,
    /// A path separator, a control character, or exactly `.` / `..`.
    Unsafe,
}

/// Characters that may not appear in an ops id.
pub open spec fn is_unsafe_ops_id_char(c: char) -> bool {
    crate::text::is_control(c) || c == '/' || c == '\\'
}

/// The relative path segments `.` and `..`.
pub open spec fn is_dot_segment(t: Seq<char>) -> bool {
    t =~= seq!['.'] || t =~= seq!['.', '.']
}

/// Some character of `t` is refused in an id.
pub open spec fn has_unsafe_char(t: Seq<char>) -> bool {
    exists|i: int| 0 <= i < t.len() && is_unsafe_ops_id_char(#[trigger] t[i])
}

/// The verdict on an id: `None` when it is accepted, else why it is refused.
/// The rules apply to the id with surrounding whitespace trimmed.
pub open spec fn ops_id_rejection(raw: Seq<char>) -> Option<PhotonIdErrorKind> {
    let t = crate::text::trim(raw);
    if t.len() == 0 {
        Some(PhotonIdErrorKind::Empty)
    } else if t.len() > MAX_PHOTON_ID_CHARS {
        Some(PhotonIdErrorKind::TooLong)
    } else if is_dot_segment(t) || has_unsafe_char(t) {
        Some(PhotonIdErrorKind::Unsafe)
    } else {
        None
    }
}

fn is_unsafe_ops_id_char_exec(c: char) -> (r: bool)
    ensures
        r == is_unsafe_ops_id_char(c),
{
    is_control_char(c) || c == '/' || c == '\\'
}

/// Checks an id against the ops id rules; on success returns the trimmed id.
fn check_ops_id(raw: &str) -> (r: Result<Vec<char>, PhotonIdErrorKind>)
    ensures
        match ops_id_rejection(raw@) {
            None => r matches Ok(t) && t@ == crate::text::trim(raw@),
            Some(k) => r == Err::<Vec<char>, PhotonIdErrorKind>(k),
        },
{
    let chars = str_chars(raw);
    let (start, end) = trim_bounds(&chars);
    let ghost t = crate::text::trim(raw@);
    let len = end - start;
    if len == 0 {
        return Err(PhotonIdErrorKind::Empty);
    }
    if len > MAX_PHOTON_ID_CHARS {
        return Err(PhotonIdErrorKind::TooLong);
    }
    if chars[start] == '.' && (len == 1 || (len == 2 && chars[start + 1] == '.')) {
        proof {
            assert(t[0] == chars@[start as int]);
            if len == 2 {
                assert(t[1] == chars@[start + 1]);
                assert(t =~= seq!['.', '.']);
            } else {
                assert(t =~= seq!['.']);
            }
        }
        return Err(PhotonIdErrorKind::Unsafe);
    }
    assert(!is_dot_segment(t)) by {
        if t =~= seq!['.'] || t =~= seq!['.', '.'] {
            assert(t[0] == chars@[start as int]);
            if len == 2 {
                assert(t[1] == chars@[start + 1]);
            }
        }
    }
    let mut trimmed: Vec<char> = Vec::new();
    let mut i = start;
    while i < end
        invariant
            start <= i <= end <= chars.len(),
            t == chars@.subrange(start as int, end as int),
            t == crate::text::trim(raw@),
            0 < t.len() <= MAX_PHOTON_ID_CHARS,
            !is_dot_segment(t),
            trimmed@ == t.take(i - start),
            forall|k: int| 0 <= k < i - start ==> !is_unsafe_ops_id_char(#[trigger] t[k]),
        decreases end - i,
    {
        let c = chars[i];
        if is_unsafe_ops_id_char_exec(c) {
            assert(t[i - start] == c);
            return Err(PhotonIdErrorKind::Unsafe);
        }
        trimmed.push(c);
        assert(trimmed@ =~= t.take(i + 1 - start));
        i = i + 1;
    }
    assert(trimmed@ =~= t);
    Ok(trimmed)
}

/// The error a refused topic name is reported with.
pub open spec fn topic_name_error(k: PhotonIdErrorKind) -> PhotonIdError {
    match k {
        PhotonIdErrorKind::Empty => PhotonIdError::EmptyTopicName,
        PhotonIdErrorKind::TooLong => PhotonIdError::TopicNameTooLong,
        PhotonIdErrorKind::Unsafe => PhotonIdError::UnsafeTopicName,
    }
}

/// The error a refused subscription id is reported with.
pub open spec fn subscription_id_error(k: PhotonIdErrorKind) -> PhotonIdError {
    match k {
        PhotonIdErrorKind::Empty => PhotonIdError::EmptySubscriptionId,
        PhotonIdErrorKind::TooLong => PhotonIdError::SubscriptionIdTooLong,
        PhotonIdErrorKind::Unsafe => PhotonIdError::UnsafeSubscriptionId,
    }
}

/// The error a refused event id is reported with.
pub open spec fn event_id_error(k: PhotonIdErrorKind) -> PhotonIdError {
    match k {
        PhotonIdErrorKind::Empty => PhotonIdError::EmptyEventId,
        PhotonIdErrorKind::TooLong => PhotonIdError::EventIdTooLong,
        PhotonIdErrorKind::Unsafe => PhotonIdError::UnsafeEventId,
    }
}

/// Rejects blank, oversized, path-separating, control, or `.` / `..` topic names
/// before registry / detail lookups.
pub fn validate_topic_name(topic_name: &str) -> (r: Result<(), PhotonIdError>)
    ensures
        r == match ops_id_rejection(topic_name@) {
            None => Ok(()),
            Some(k) => Err(topic_name_error(k)),
        },
{
    match check_ops_id(topic_name) {
        Ok(_) => Ok(()),
        Err(PhotonIdErrorKind::Empty) => Err(PhotonIdError::EmptyTopicName),
        Err(PhotonIdErrorKind::TooLong) => Err(PhotonIdError::TopicNameTooLong),
        Err(PhotonIdErrorKind::Unsafe) => Err(PhotonIdError::UnsafeTopicName),
    }
}

/// Rejects blank, oversized, path-separating, control, or `.` / `..` subscription
/// ids before detail lookups.
pub fn validate_subscription_id(id: &str) -> (r: Result<(), PhotonIdError>)
    ensures
        r == match ops_id_rejection(id@) {
            None => Ok(()),
            Some(k) => Err(subscription_id_error(k)),
        },
{
    match check_ops_id(id) {
        Ok(_) => Ok(()),
        Err(PhotonIdErrorKind::Empty) => Err(PhotonIdError::EmptySubscriptionId),
        Err(PhotonIdErrorKind::TooLong) => Err(PhotonIdError::SubscriptionIdTooLong),
        Err(PhotonIdErrorKind::Unsafe) => Err(PhotonIdError::UnsafeSubscriptionId),
    }
}

/// Rejects blank, oversized, path-separating, control, or `.` / `..` event ids
/// before detail lookups.
pub fn validate_event_id(id: &str) -> (r: Result<(), PhotonIdError>)
    ensures
        r == match ops_id_rejection(id@) {
            None => Ok(()),
            Some(k) => Err(event_id_error(k)),
        },
{
    match check_ops_id(id) {
        Ok(_) => Ok(()),
        Err(PhotonIdErrorKind::Empty) => Err(PhotonIdError::EmptyEventId),
        Err(PhotonIdErrorKind::TooLong) => Err(PhotonIdError::EventIdTooLong),
        Err(PhotonIdErrorKind::Unsafe) => Err(PhotonIdError::UnsafeEventId),
    }
}

/// A requested list size, capped at [`MAX_EVENT_LIST_LIMIT`].
pub open spec fn spec_capped(limit: u32) -> int {
    if limit <= MAX_EVENT_LIST_LIMIT {
        limit as int
    } else {
        MAX_EVENT_LIST_LIMIT as int
    }
}

/// Cap requested event list limits to [`MAX_EVENT_LIST_LIMIT`].
pub fn clamp_event_list_limit(limit: u32) -> (r: usize)
    ensures
        r == spec_capped(limit),
{
    if limit <= MAX_EVENT_LIST_LIMIT {
        limit as usize
    } else {
        MAX_EVENT_LIST_LIMIT as usize
    }
}

/// RFC 3986 unreserved bytes: `ALPHA` / `DIGIT` / `-` `.` `_` `~`.
pub open spec fn is_unreserved_byte(b: u8) -> bool {
    ||| (0x41 <= b && b <= 0x5a)
    ||| (0x61 <= b && b <= 0x7a)
    ||| (0x30 <= b && b <= 0x39)
    ||| b == 0x2d
    ||| b == 0x2e
    ||| b == 0x5f
    ||| b == 0x7e
}

/// Upper-case hexadecimal digits, indexed by value.
pub open spec fn hex_digits() -> Seq<char> {
    seq!['0', '1', '2', '3', '4', '5', '6', '7', '8', '9', 'A', 'B', 'C', 'D', 'E', 'F']
}

/// How one byte of a segment is written: itself when unreserved, else `%XX`.
pub open spec fn encode_byte(b: u8) -> Seq<char> {
    if is_unreserved_byte(b) {
        seq![b as char]
    } else {
        seq!['%', hex_digits()[(b / 16) as int], hex_digits()[(b % 16) as int]]
    }
}

/// Percent-encoding of a byte string, byte by byte.
pub open spec fn percent_encode(bytes: Seq<u8>) -> Seq<char>
    decreases bytes.len(),
{
    if bytes.len() == 0 {
        Seq::empty()
    } else {
        encode_byte(bytes[0]) + percent_encode(bytes.drop_first())
    }
}

proof fn lemma_percent_encode_push(a: Seq<u8>, b: u8)
    ensures
        percent_encode(a.push(b)) == percent_encode(a) + encode_byte(b),
    decreases a.len(),
{
    if a.len() == 0 {
        assert(a.push(b).drop_first() =~= Seq::<u8>::empty());
        assert(percent_encode(Seq::<u8>::empty()) =~= Seq::<char>::empty());
        assert(percent_encode(a.push(b)) =~= encode_byte(b));
        assert(percent_encode(a) =~= Seq::<char>::empty());
    } else {
        assert(a.push(b).drop_first() =~= a.drop_first().push(b));
        lemma_percent_encode_push(a.drop_first(), b);
        assert(percent_encode(a.push(b)) =~= percent_encode(a) + encode_byte(b));
    }
}

/// Appends one character to a `String` (`String::push`).
#[verifier::external_body]
fn push_char(s: &mut String, c: char)
    ensures
        final(s)@ == old(s)@.push(c),
{
    s.push(c);
}

fn hex_char(n: u8) -> (c: char)
    requires
        n < 16,
    ensures
        c == hex_digits()[n as int],
{
    match n {
        0 => '0',
        1 => '1',
        2 => '2',
        3 => '3',
        4 => '4',
        5 => '5',
        6 => '6',
        7 => '7',
        8 => '8',
        9 => '9',
        10 => 'A',
        11 => 'B',
        12 => 'C',
        13 => 'D',
        14 => 'E',
        _ => 'F',
    }
}

/// Percent-encode a single path segment for `/photon/...` hrefs.
///
/// Leaves RFC 3986 unreserved characters alone (`ALPHA` / `DIGIT` / `-` `.` `_`
/// `~`). Encodes `/`, `\`, controls, spaces, and every other UTF-8 byte as `%XX`
/// so that path format strings cannot smuggle extra path segments.
pub fn encode_ops_path_segment(raw: &str) -> (out: String)
    ensures
        out@ == percent_encode(vstd::utf8::encode_utf8(raw@)),
{
    let bytes = raw.as_bytes();
    let mut out = String::new();
    let mut i: usize = 0;
    assert(bytes@.take(0) =~= Seq::<u8>::empty());
    while i < bytes.len()
        invariant
            i <= bytes.len(),
            bytes@ == vstd::utf8::encode_utf8(raw@),
            out@ == percent_encode(bytes@.take(i as int)),
        decreases bytes.len() - i,
    {
        let b = bytes[i];
        if (0x41 <= b && b <= 0x5a) || (0x61 <= b && b <= 0x7a) || (0x30 <= b && b <= 0x39) || b
            == 0x2d || b == 0x2e || b == 0x5f || b == 0x7e {
            push_char(&mut out, b as char);
        } else {
            push_char(&mut out, '%');
            push_char(&mut out, hex_char(b / 16));
            push_char(&mut out, hex_char(b % 16));
        }
        proof {
            lemma_percent_encode_push(bytes@.take(i as int), b);
            assert(bytes@.take(i as int).push(b) =~= bytes@.take(i + 1));
            assert(out@ =~= percent_encode(bytes@.take(i as int)) + encode_byte(b));
        }
        i = i + 1;
    }
    assert(bytes@.take(i as int) =~= bytes@);
    out
}

/// `/photon/topics/`
pub open spec fn topics_prefix() -> Seq<char> {
    seq!['/', 'p', 'h', 'o', 't', 'o', 'n', '/', 't', 'o', 'p', 'i', 'c', 's', '/']
}

/// `/photon/subscriptions/`
pub open spec fn subscriptions_prefix() -> Seq<char> {
    seq![
        '/', 'p', 'h', 'o', 't', 'o', 'n', '/', 's', 'u', 'b', 's', 'c', 'r', 'i', 'p', 't', 'i', 'o', 'n', 's', '/'
    ]
}

/// `/photon/events/`
pub open spec fn events_prefix() -> Seq<char> {
    seq!['/', 'p', 'h', 'o', 't', 'o', 'n', '/', 'e', 'v', 'e', 'n', 't', 's', '/']
}

/// `/photon/topics/{encoded}` detail href.
pub fn photon_topic_path(topic_name: &str) -> (p: String)
    ensures
        p@ == topics_prefix() + percent_encode(vstd::utf8::encode_utf8(topic_name@)),
{
    let seg = encode_ops_path_segment(topic_name);
    let mut p = String::from_str("/photon/topics/");
    proof {
        reveal_strlit("/photon/topics/");
    }
    p.append(seg.as_str());
    assert(p@ =~= topics_prefix() + seg@);
    p
}

/// `/photon/subscriptions/{encoded}` detail href.
pub fn photon_subscription_path(subscription_id: &str) -> (p: String)
    ensures
        p@ == subscriptions_prefix() + percent_encode(vstd::utf8::encode_utf8(subscription_id@)),
{
    let seg = encode_ops_path_segment(subscription_id);
    let mut p = String::from_str("/photon/subscriptions/");
    proof {
        reveal_strlit("/photon/subscriptions/");
    }
    p.append(seg.as_str());
    assert(p@ =~= subscriptions_prefix() + seg@);
    p
}

/// `/photon/events/{encoded}` detail href.
pub fn photon_event_path(event_id: &str) -> (p: String)
    ensures
        p@ == events_prefix() + percent_encode(vstd::utf8::encode_utf8(event_id@)),
{
    let seg = encode_ops_path_segment(event_id);
    let mut p = String::from_str("/photon/events/");
    proof {
        reveal_strlit("/photon/events/");
    }
    p.append(seg.as_str());
    assert(p@ =~= events_prefix() + seg@);
    p
}

/// Value of an upper-case hexadecimal digit, `-1` for any other character.
pub open spec fn hex_value(c: char) -> int {
    if '0' <= c && c <= '9' {
        c as int - 48
    } else if 'A' <= c && c <= 'F' {
        c as int - 55
    } else {
        -1
    }
}

/// Reads back a percent-encoded segment: `Some(bytes)` when every character is
/// an unreserved ASCII character or a `%XX` escape, else `None`.
pub open spec fn percent_decode(s: Seq<char>) -> Option<Seq<u8>>
    decreases s.len(),
{
    if s.len() == 0 {
        Some(Seq::empty())
    } else if s[0] == '%' {
        if s.len() >= 3 && 0 <= hex_value(s[1]) && 0 <= hex_value(s[2]) {
            match percent_decode(s.skip(3)) {
                Some(rest) => Some(seq![(hex_value(s[1]) * 16 + hex_value(s[2])) as u8] + rest),
                None => None,
            }
        } else {
            None
        }
    } else if (s[0] as u32) < 128 && is_unreserved_byte(s[0] as u32 as u8) {
        match percent_decode(s.drop_first()) {
            Some(rest) => Some(seq![s[0] as u32 as u8] + rest),
            None => None,
        }
    } else {
        None
    }
}

/// Characters that can stand in an encoded segment: unreserved ASCII and `%`.
pub open spec fn is_segment_char(c: char) -> bool {
    c == '%' || ((c as u32) < 128 && is_unreserved_byte(c as u32 as u8))
}

proof fn lemma_hex_digits(n: int)
    requires
        0 <= n < 16,
    ensures
        hex_value(hex_digits()[n]) == n,
        is_segment_char(hex_digits()[n]),
        hex_digits()[n] != '%',
{
    assert(hex_value('0') == 0 && hex_value('1') == 1 && hex_value('2') == 2 && hex_value('3')
        == 3 && hex_value('4') == 4 && hex_value('5') == 5 && hex_value('6') == 6 && hex_value(
        '7',
    ) == 7 && hex_value('8') == 8 && hex_value('9') == 9 && hex_value('A') == 10 && hex_value(
        'B',
    ) == 11 && hex_value('C') == 12 && hex_value('D') == 13 && hex_value('E') == 14
        && hex_value('F') == 15);
}

proof fn lemma_encode_byte(b: u8)
    ensures
        percent_decode(encode_byte(b)) == Some(seq![b]),
        forall|i: int| 0 <= i < encode_byte(b).len() ==> is_segment_char(#[trigger] encode_byte(b)[i]),
{
    let e = encode_byte(b);
    if is_unreserved_byte(b) {
        assert((b as char) as u32 == b as u32);
        assert(e.drop_first() =~= Seq::<char>::empty());
        assert(percent_decode(e.drop_first()) == Some(Seq::<u8>::empty()));
        assert(seq![(b as char) as u32 as u8] + Seq::<u8>::empty() =~= seq![b]);
    } else {
        lemma_hex_digits((b / 16) as int);
        lemma_hex_digits((b % 16) as int);
        assert(e.skip(3) =~= Seq::<char>::empty());
        assert(percent_decode(e.skip(3)) == Some(Seq::<u8>::empty()));
        assert(((b / 16) as int * 16 + (b % 16) as int) as u8 == b);
        assert(seq![((b / 16) as int * 16 + (b % 16) as int) as u8] + Seq::<u8>::empty()
            =~= seq![b]);
    }
}

proof fn lemma_decode_prefix(e: Seq<char>, rest: Seq<char>, b: u8)
    requires
        e == encode_byte(b),
    ensures
        percent_decode(e + rest) == match percent_decode(rest) {
            Some(r) => Some(seq![b] + r),
            None => None::<Seq<u8>>,
        },
{
    let s = e + rest;
    if is_unreserved_byte(b) {
        assert((b as char) as u32 == b as u32);
        assert(s[0] == b as char);
        assert(s.drop_first() =~= rest);
    } else {
        lemma_hex_digits((b / 16) as int);
        lemma_hex_digits((b % 16) as int);
        assert(s[0] == '%');
        assert(s[1] == hex_digits()[(b / 16) as int]);
        assert(s[2] == hex_digits()[(b % 16) as int]);
        assert(s.skip(3) =~= rest);
        assert(((b / 16) as int * 16 + (b % 16) as int) as u8 == b);
    }
}

/// Law: percent-encoding loses nothing; decoding an encoded segment gives back
/// exactly the bytes that were encoded.
pub proof fn law_percent_encoding_round_trips(bytes: Seq<u8>)
    ensures
        percent_decode(percent_encode(bytes)) == Some(bytes),
    decreases bytes.len(),
{
    if bytes.len() == 0 {
        assert(percent_encode(bytes) =~= Seq::<char>::empty());
    } else {
        law_percent_encoding_round_trips(bytes.drop_first());
        lemma_decode_prefix(encode_byte(bytes[0]), percent_encode(bytes.drop_first()), bytes[0]);
        assert(seq![bytes[0]] + bytes.drop_first() =~= bytes);
    }
}

/// Law: an encoded segment holds only unreserved ASCII characters and `%`; in
/// particular no `/`, no `\\`, no space and no control character, so it can never
/// add a path segment to an href.
pub proof fn law_encoded_segment_is_path_safe(bytes: Seq<u8>)
    ensures
        forall|i: int|
            0 <= i < percent_encode(bytes).len() ==> is_segment_char(#[trigger] percent_encode(bytes)[i]),
        !percent_encode(bytes).contains('/'),
        !percent_encode(bytes).contains('\\'),
        !percent_encode(bytes).contains(' '),
    decreases bytes.len(),
{
    let e = percent_encode(bytes);
    if bytes.len() > 0 {
        law_encoded_segment_is_path_safe(bytes.drop_first());
        lemma_encode_byte(bytes[0]);
        let h = encode_byte(bytes[0]);
        let t = percent_encode(bytes.drop_first());
        assert forall|i: int| 0 <= i < e.len() implies is_segment_char(#[trigger] e[i]) by {
            if i < h.len() {
                assert(e[i] == h[i]);
            } else {
                assert(e[i] == t[i - h.len()]);
            }
        }
    }
    assert(!is_segment_char('/'));
    assert(!is_segment_char('\\'));
    assert(!is_segment_char(' '));
    if e.contains('/') {
        let i = choose|i: int| 0 <= i < e.len() && e[i] == '/';
        assert(is_segment_char(e[i]));
    }
    if e.contains('\\') {
        let i = choose|i: int| 0 <= i < e.len() && e[i] == '\\';
        assert(is_segment_char(e[i]));
    }
    if e.contains(' ') {
        let i = choose|i: int| 0 <= i < e.len() && e[i] == ' ';
        assert(is_segment_char(e[i]));
    }
}

/// Law: distinct ids get distinct encoded segments (and so distinct hrefs).
pub proof fn law_distinct_ids_get_distinct_segments(a: Seq<char>, b: Seq<char>)
    requires
        a != b,
    ensures
        percent_encode(vstd::utf8::encode_utf8(a)) != percent_encode(vstd::utf8::encode_utf8(b)),
{
    if percent_encode(vstd::utf8::encode_utf8(a)) == percent_encode(vstd::utf8::encode_utf8(b)) {
        law_percent_encoding_round_trips(vstd::utf8::encode_utf8(a));
        law_percent_encoding_round_trips(vstd::utf8::encode_utf8(b));
        vstd::utf8::encode_utf8_decode_utf8(a);
        vstd::utf8::encode_utf8_decode_utf8(b);
    }
}

/// Law: an id and its trimmed form get the same verdict, so once an id is
/// accepted its trimmed form is accepted too and is the one to look up.
pub proof fn law_trimmed_id_gets_same_verdict(raw: Seq<char>)
    ensures
        ops_id_rejection(crate::text::trim(raw)) == ops_id_rejection(raw),
{
    crate::text::law_trim_is_idempotent(raw);
}

/// Law: an accepted id, trimmed, is a single safe path segment: between one and
/// [`MAX_PHOTON_ID_CHARS`] characters, no `/`, no `\\`, no control character,
/// and neither `.` nor `..`.
pub proof fn law_accepted_ids_are_safe_segments(raw: Seq<char>)
    requires
        ops_id_rejection(raw) is None,
    ensures
        0 < crate::text::trim(raw).len() <= MAX_PHOTON_ID_CHARS,
        !crate::text::trim(raw).contains('/'),
        !crate::text::trim(raw).contains('\\'),
        forall|i: int|
            0 <= i < crate::text::trim(raw).len() ==> !crate::text::is_control(
                #[trigger] crate::text::trim(raw)[i],
            ),
        !is_dot_segment(crate::text::trim(raw)),
{
    let t = crate::text::trim(raw);
    if t.contains('/') {
        let i = choose|i: int| 0 <= i < t.len() && t[i] == '/';
        assert(is_unsafe_ops_id_char(t[i]));
    }
    if t.contains('\\') {
        let i = choose|i: int| 0 <= i < t.len() && t[i] == '\\';
        assert(is_unsafe_ops_id_char(t[i]));
    }
    assert forall|i: int| 0 <= i < t.len() implies !crate::text::is_control(#[trigger] t[i]) by {
        if crate::text::is_control(t[i]) {
            assert(is_unsafe_ops_id_char(t[i]));
        }
    }
}

/// Law: the message of every blank-id error says the id is `required`.
pub proof fn law_blank_id_errors_say_required(e: PhotonIdError)
    requires
        e.is_blank_error(),
    ensures
        crate::text::has_substring(e.text(), "required"@),
{
    reveal_strlit("required");
    reveal_strlit("Photon topic name is required");
    reveal_strlit("Photon subscription id is required");
    reveal_strlit("Photon event id is required");
    let t = e.text();
    let r = "required"@;
    let i = t.len() - 8;
    assert(t.subrange(i, i + r.len()) =~= r);
}

/// Characters an encoded segment keeps as they are: RFC 3986 unreserved ASCII.
pub open spec fn is_unreserved_char(c: char) -> bool {
    ||| ('A' <= c && c <= 'Z')
    ||| ('a' <= c && c <= 'z')
    ||| ('0' <= c && c <= '9')
    ||| c == '-'
    ||| c == '.'
    ||| c == '_'
    ||| c == '~'
}

proof fn lemma_unreserved_bytes_unchanged(b: Seq<u8>, c: Seq<char>)
    requires
        b.len() == c.len(),
        forall|i: int| 0 <= i < c.len() ==> is_unreserved_char(#[trigger] c[i]),
        forall|i: int| 0 <= i < c.len() ==> #[trigger] b[i] == c[i] as u8,
    ensures
        percent_encode(b) == c,
    decreases b.len(),
{
    if b.len() > 0 {
        lemma_unreserved_bytes_unchanged(b.drop_first(), c.drop_first());
        let c0 = c[0];
        assert(is_unreserved_char(c0));
        assert(b[0] == c0 as u8);
        assert((b[0] as char) == c0);
        assert(is_unreserved_byte(b[0]));
        assert(percent_encode(b) =~= seq![c[0]] + c.drop_first());
        assert(seq![c[0]] + c.drop_first() =~= c);
    } else {
        assert(percent_encode(b) =~= c);
    }
}

/// Law: an id made only of RFC 3986 unreserved characters is its own encoded
/// segment.
pub proof fn law_unreserved_ids_are_unchanged(s: Seq<char>)
    requires
        forall|i: int| 0 <= i < s.len() ==> is_unreserved_char(#[trigger] s[i]),
    ensures
        percent_encode(vstd::utf8::encode_utf8(s)) == s,
{
    assert(vstd::utf8::is_ascii_chars(s)) by {
        assert forall|i: int| 0 <= i < s.len() implies '\0' <= #[trigger] s[i] && s[i] <= '\u{7f}' by {
            assert(is_unreserved_char(s[i]));
        }
    }
    vstd::utf8::is_ascii_chars_encode_utf8(s);
    let b = vstd::utf8::encode_utf8(s);
    assert forall|i: int| 0 <= i < s.len() implies #[trigger] b[i] == s[i] as u8 by {
        assert(s[i] as u8 == b[i]);
    }
    lemma_unreserved_bytes_unchanged(b, s);
}

/// Law: a capped list size never exceeds the size asked for nor
/// [`MAX_EVENT_LIST_LIMIT`], and capping twice is capping once.
pub proof fn law_capped_limit_is_within_request_and_cap(limit: u32)
    ensures
        spec_capped(limit) <= limit,
        spec_capped(limit) <= MAX_EVENT_LIST_LIMIT,
        spec_capped(spec_capped(limit) as u32) == spec_capped(limit),
{
}

/// Law: percent-encoding works byte by byte: the encoding of a concatenation
/// is the concatenation of the encodings, and nothing encodes to nothing.
pub proof fn law_percent_encode_concat(a: Seq<u8>, b: Seq<u8>)
    ensures
        percent_encode(a + b) == percent_encode(a) + percent_encode(b),
        percent_encode(Seq::<u8>::empty()) == Seq::<char>::empty(),
    decreases a.len(),
{
    assert(percent_encode(Seq::<u8>::empty()) =~= Seq::<char>::empty());
    if a.len() == 0 {
        assert(a + b =~= b);
        assert(percent_encode(a) + percent_encode(b) =~= percent_encode(b));
    } else {
        law_percent_encode_concat(a.drop_first(), b);
        assert((a + b).drop_first() =~= a.drop_first() + b);
        assert((a + b)[0] == a[0]);
        assert(percent_encode(a + b) =~= percent_encode(a) + percent_encode(b));
    }
}

proof fn lemma_encode_utf8_concat(a: Seq<char>, b: Seq<char>)
    ensures
        vstd::utf8::encode_utf8(a + b) == vstd::utf8::encode_utf8(a) + vstd::utf8::encode_utf8(b),
    decreases a.len(),
{
    if a.len() == 0 {
        assert(a + b =~= b);
        assert(vstd::utf8::encode_utf8(a) =~= Seq::<u8>::empty());
        assert(vstd::utf8::encode_utf8(a) + vstd::utf8::encode_utf8(b) =~= vstd::utf8::encode_utf8(b));
    } else {
        lemma_encode_utf8_concat(a.drop_first(), b);
        assert((a + b).drop_first() =~= a.drop_first() + b);
        assert((a + b)[0] == a[0]);
        assert(vstd::utf8::encode_utf8(a + b) =~= vstd::utf8::encode_utf8(a) + vstd::utf8::encode_utf8(b));
    }
}

/// Law: the encoded segment of two ids written one after the other is the
/// encoded segment of the first followed by that of the second, and the empty
/// id has the empty segment.
pub proof fn law_segment_of_concatenation(a: Seq<char>, b: Seq<char>)
    ensures
        percent_encode(vstd::utf8::encode_utf8(a + b)) == percent_encode(vstd::utf8::encode_utf8(a))
            + percent_encode(vstd::utf8::encode_utf8(b)),
        percent_encode(vstd::utf8::encode_utf8(Seq::<char>::empty())) == Seq::<char>::empty(),
{
    lemma_encode_utf8_concat(a, b);
    law_percent_encode_concat(vstd::utf8::encode_utf8(a), vstd::utf8::encode_utf8(b));
    assert(vstd::utf8::encode_utf8(Seq::<char>::empty()) =~= Seq::<u8>::empty());
    law_percent_encode_concat(Seq::<u8>::empty(), Seq::<u8>::empty());
}

/// Law: the refusals are exactly the documented ones. An id is accepted if and
/// only if, once trimmed, it has between one and [`MAX_PHOTON_ID_CHARS`]
/// characters, is neither `.` nor `..`, and holds no control character, no `/`
/// and no `\\`; every other character is allowed.
pub proof fn law_only_documented_ids_are_refused(raw: Seq<char>)
    ensures
        ops_id_rejection(raw) is None <==> {
            let t = crate::text::trim(raw);
            &&& 0 < t.len() <= MAX_PHOTON_ID_CHARS
            &&& t != seq!['.']
            &&& t != seq!['.', '.']
            &&& forall|i: int|
                0 <= i < t.len() ==> !crate::text::is_control(#[trigger] t[i]) && t[i] != '/'
                    && t[i] != '\\'
        },
{
    let t = crate::text::trim(raw);
    if has_unsafe_char(t) {
        let i = choose|i: int| 0 <= i < t.len() && is_unsafe_ops_id_char(#[trigger] t[i]);
        assert(crate::text::is_control(t[i]) || t[i] == '/' || t[i] == '\\');
    }
    if !has_unsafe_char(t) {
        assert forall|i: int| 0 <= i < t.len() implies !crate::text::is_control(#[trigger] t[i])
            && t[i] != '/' && t[i] != '\\' by {
            assert(!is_unsafe_ops_id_char(t[i]));
        }
    }
    if t =~= seq!['.'] {
        assert(t == seq!['.']);
    }
    if t =~= seq!['.', '.'] {
        assert(t == seq!['.', '.']);
    }
}

} // verus!

//! Identifiers of rooms and of clients: how they are drawn at random, and
//! how a room code typed by a player is cleaned up.
use vstd::prelude::*;
use vstd::utf8::*;
use crate::text::{
    ascii_lower, ascii_lower_exec, ascii_string, byte_char, byte_chars, is_alphanumeric_byte,
    is_alphanumeric_char, is_lower_byte, is_lower_byte_exec, is_lower_char, is_upper_char,
    lower_char, owned,
};

verus! {

/// Number of letters of a room code.
pub const ROOM_ID_LEN: usize = 4;

/// Number of characters of a client id.
pub const CLIENT_ID_LEN: usize = 12;

/// Identifies a room; players type it to join.
#[derive(Debug, Clone, PartialEq, Eq, Hash)]
pub struct RoomId(pub String);

impl View for RoomId {
    type V = Seq<char>;

    open spec fn view(&self) -> Seq<char> {
        self.0@
    }
}

/// Identifies one player across reconnections.
#[derive(Debug, Clone, PartialEq, Eq, Hash)]
pub struct ClientId(String);

impl View for ClientId {
    type V = Seq<char>;

    closed spec fn view(&self) -> Seq<char> {
        self.0@
    }
}

/// A room code as generated: exactly four lower-case ASCII letters.
pub open spec fn is_room_code(s: Seq<char>) -> bool {
    &&& s.len() == ROOM_ID_LEN
    &&& forall|i: int| 0 <= i < s.len() ==> is_lower_char(#[trigger] s[i])
}

/// The test for a lower-case ASCII letter, as a function value.
pub open spec fn lower_pred() -> spec_fn(u8) -> bool {
    |b: u8| is_lower_byte(b)
}

/// ASCII lower-casing, as a function value.
pub open spec fn lower_map() -> spec_fn(u8) -> u8 {
    |b: u8| ascii_lower(b)
}

/// A client id as generated: twelve ASCII letters and digits.
pub open spec fn is_client_code(s: Seq<char>) -> bool {
    &&& s.len() == CLIENT_ID_LEN
    &&& forall|i: int| 0 <= i < s.len() ==> is_alphanumeric_char(#[trigger] s[i])
}

/// At most the first `n` elements of `s`.
pub open spec fn prefix<A>(s: Seq<A>, n: nat) -> Seq<A> {
    if s.len() <= n {
        s
    } else {
        s.take(n as int)
    }
}

/// What a room code input field keeps of the bytes typed into it: the
/// first four bytes, with ASCII capitals lowered, of which only the
/// lower-case ASCII letters remain.
pub open spec fn room_code_bytes(input: Seq<u8>) -> Seq<u8> {
    prefix(input, ROOM_ID_LEN as nat).map_values(lower_map()).filter(lower_pred())
}

/// The characters that a room code input field keeps of `input`.
pub open spec fn sanitized_room_code(input: Seq<char>) -> Seq<char> {
    byte_chars(room_code_bytes(encode_utf8(input)))
}

/// Cutting `input` after its fourth byte falls on a character boundary, or
/// there is nothing to cut.
pub open spec fn room_code_cut_ok(input: Seq<char>) -> bool {
    encode_utf8(input).len() <= ROOM_ID_LEN || is_char_boundary(
        encode_utf8(input),
        ROOM_ID_LEN as int,
    )
}

/// Filtering a one-longer prefix adds the new element when it passes.
pub proof fn lemma_filter_take_step<A>(s: Seq<A>, pred: spec_fn(A) -> bool, i: int)
    requires
        0 <= i < s.len(),
    ensures
        s.take(i + 1).filter(pred) == (if pred(s[i]) {
            s.take(i).filter(pred).push(s[i])
        } else {
            s.take(i).filter(pred)
        }),
{
    reveal(Seq::filter);
    assert(s.take(i + 1).drop_last() =~= s.take(i));
    assert(s.take(i + 1).last() == s[i]);
}

/// Draws `count` random bytes from the letters and digits of ASCII.
/// Trusted: `rand::Rng::sample_iter` with `rand::distributions::Alphanumeric`
/// on `rand::thread_rng()` (rand 0.8). The contract states only what holds
/// of every draw: `count` bytes, each `a-z`, `A-Z` or `0-9`, as rand's
/// documentation of `Alphanumeric` says; which bytes come is left open.
#[verifier::external_body]
fn sample_alphanumeric(count: usize) -> (draws: Vec<u8>)
    ensures
        draws.len() == count,
        forall|i: int| 0 <= i < draws.len() ==> is_alphanumeric_byte(#[trigger] draws[i]),
{
    rand::Rng::sample_iter(rand::thread_rng(), rand::distributions::Alphanumeric)
        .take(count)
        .collect()
}

/// Draws `count` random bytes, each between `low` and `high`.
/// Trusted: `rand::Rng::sample_iter` with
/// `rand::distributions::Uniform::new_inclusive(low, high)` on
/// `rand::thread_rng()` (rand 0.8), which panics when `low > high`. The
/// contract states only what holds of every draw: `count` bytes, each in
/// the range, as rand's documentation of `Uniform` says; which bytes come
/// is left open.
#[verifier::external_body]
fn sample_between(low: u8, high: u8, count: usize) -> (draws: Vec<u8>)
    requires
        low <= high,
    ensures
        draws.len() == count,
        forall|i: int| 0 <= i < draws.len() ==> low <= #[trigger] draws[i] <= high,
{
    rand::Rng::sample_iter(
        rand::thread_rng(),
        rand::distributions::Uniform::new_inclusive(low, high),
    ).take(count).collect()
}

impl RoomId {
    /// The room code spelt by four lower-case letters.
    pub fn from_letters(letters: &Vec<u8>) -> (id: RoomId)
        requires
            letters.len() == ROOM_ID_LEN,
            forall|i: int| 0 <= i < letters.len() ==> is_lower_byte(#[trigger] letters[i]),
        ensures
            id@ == byte_chars(letters@),
            is_room_code(id@),
    {
        let s = ascii_string(letters);
        assert forall|i: int| 0 <= i < s@.len() implies is_lower_char(#[trigger] s@[i]) by {
            assert(is_lower_byte(letters[i]));
        }
        RoomId(s)
    }

    /// A fresh random room code: four lower-case letters, each drawn
    /// uniformly from `a` to `z`.
    pub fn random() -> (id: RoomId)
        ensures
            is_room_code(id@),
    {
        let letters = sample_between(97, 122, ROOM_ID_LEN);
        RoomId::from_letters(&letters)
    }

    /// The text of the room code (what `Display` writes).
    pub fn to_string(&self) -> (s: String)
        ensures
            s@ == self@,
    {
        self.0.clone()
    }
}

impl ClientId {
    /// The client id made of the characters whose codes are `draws`.
    pub fn from_draws(draws: &Vec<u8>) -> (id: ClientId)
        requires
            forall|i: int| 0 <= i < draws.len() ==> is_alphanumeric_byte(#[trigger] draws[i]),
        ensures
            id@ == byte_chars(draws@),
    {
        ClientId(ascii_string(draws))
    }

    /// A fresh random client id of twelve ASCII letters and digits.
    pub fn random() -> (id: ClientId)
        ensures
            is_client_code(id@),
    {
        let draws = sample_alphanumeric(CLIENT_ID_LEN);
        let id = ClientId::from_draws(&draws);
        assert forall|i: int| 0 <= i < id@.len() implies is_alphanumeric_char(#[trigger] id@[i]) by {
            assert(is_alphanumeric_byte(draws[i]));
        }
        id
    }

    /// The client id with the text `s` (`From<String>`).
    pub fn from_string(s: String) -> (id: ClientId)
        ensures
            id@ == s@,
    {
        ClientId(s)
    }

    /// Parses a client id; every text is one (`FromStr`, which never fails).
    pub fn from_str(s: &str) -> (r: Result<ClientId, ()>)
        ensures
            r matches Ok(id) && id@ == s@,
    {
        Ok(ClientId(owned(s)))
    }

    /// The text of the client id (`AsRef<str>`).
    pub fn as_str(&self) -> (s: &str)
        ensures
            s@ == self@,
    {
        self.0.as_str()
    }

    /// The text of the client id (what `Display` writes).
    pub fn to_string(&self) -> (s: String)
        ensures
            s@ == self@,
    {
        self.0.clone()
    }

    /// A copy of this id.
    pub fn duplicate(&self) -> (id: ClientId)
        ensures
            id@ == self@,
    {
        ClientId(self.0.clone())
    }
}

impl RoomId {
    /// A copy of this id.
    pub fn duplicate(&self) -> (id: RoomId)
        ensures
            id@ == self@,
    {
        RoomId(self.0.clone())
    }

    /// Whether both ids have the same text.
    pub fn same_as(&self, other: &RoomId) -> (b: bool)
        ensures
            b == (self@ == other@),
    {
        self.0 == other.0
    }
}

impl ClientId {
    /// Whether both ids have the same text.
    pub fn same_as(&self, other: &ClientId) -> (b: bool)
        ensures
            b == (self@ == other@),
    {
        self.0 == other.0
    }
}

/// Cleans up what a player typed into the room code field: keeps the first
/// four bytes, lowers ASCII capitals, then drops everything that is not a
/// lower-case ASCII letter.
pub fn sanitize_room_code(input: &str) -> (code: String)
    requires
        room_code_cut_ok(input@),
    ensures
        code@ == sanitized_room_code(input@),
        code@.len() <= ROOM_ID_LEN,
        forall|i: int| 0 <= i < code@.len() ==> is_lower_char(#[trigger] code@[i]),
{
    let bytes = input.as_bytes();
    let ghost all = bytes@;
    let ghost head = prefix(all, ROOM_ID_LEN as nat);
    let ghost lowered = head.map_values(lower_map());
    let ghost pred = lower_pred();
    let n: usize = if bytes.len() <= ROOM_ID_LEN {
        bytes.len()
    } else {
        ROOM_ID_LEN
    };
    assert(head.len() == n);
    let mut kept: Vec<u8> = Vec::new();
    let mut i: usize = 0;
    while i < n
        invariant
            i <= n,
            n == head.len(),
            n <= bytes@.len(),
            all == bytes@,
            head == prefix(all, ROOM_ID_LEN as nat),
            lowered == head.map_values(lower_map()),
            pred == lower_pred(),
            kept@ == lowered.take(i as int).filter(pred),
        decreases n - i,
    {
        let b = ascii_lower_exec(bytes[i]);
        assert(b == lowered[i as int]);
        proof {
            lemma_filter_take_step(lowered, pred, i as int);
        }
        if is_lower_byte_exec(b) {
            kept.push(b);
        }
        i = i + 1;
    }
    assert(lowered.take(n as int) =~= lowered);
    proof {
        broadcast use Seq::lemma_filter_pred;
        Seq::lemma_filter_len(lowered, pred);
    }
    assert forall|k: int| 0 <= k < kept.len() implies kept[k] < 128 by {
        assert(pred(lowered.filter(pred)[k]));
    }
    let code = ascii_string(&kept);
    assert forall|k: int| 0 <= k < code@.len() implies is_lower_char(#[trigger] code@[k]) by {
        assert(pred(lowered.filter(pred)[k]));
    }
    code
}

/// A generated room code survives the room code field unchanged.
pub proof fn lemma_generated_code_is_kept(code: Seq<char>)
    requires
        is_room_code(code),
    ensures
        sanitized_room_code(code) == code,
{
    broadcast use is_ascii_chars_encode_utf8;
    assert(is_ascii_chars(code)) by {
        assert forall|i: int| 0 <= i < code.len() implies '\0' <= #[trigger] code[i] <= '\u{7f}' by {
            assert(is_lower_char(code[i]));
        }
    }
    let bytes = encode_utf8(code);
    assert(bytes.len() == ROOM_ID_LEN);
    let lowered = prefix(bytes, ROOM_ID_LEN as nat).map_values(lower_map());
    assert(prefix(bytes, ROOM_ID_LEN as nat) == bytes);
    assert forall|i: int| 0 <= i < bytes.len() implies is_lower_byte(#[trigger] bytes[i]) by {
        assert(code[i] as u8 == bytes[i]);
        assert(is_lower_char(code[i]));
    }
    assert(lowered =~= bytes);
    lemma_filter_all_pass(bytes, lower_pred());
    assert(byte_chars(bytes) =~= code) by {
        assert forall|i: int| 0 <= i < code.len() implies byte_chars(bytes)[i] == code[i] by {
            assert(code[i] as u8 == bytes[i]);
            assert(is_lower_char(code[i]));
        }
    }
}

/// A code typed in ASCII letters, capitals or not, keeps all of its first
/// four letters, each lowered: "ABCD" becomes "abcd", "aBcDe" becomes "abcd".
pub proof fn lemma_sanitize_lowers_letters(input: Seq<char>)
    requires
        forall|i: int| 0 <= i < input.len() ==> is_lower_char(#[trigger] input[i]) || is_upper_char(input[i]),
    ensures
        sanitized_room_code(input) == prefix(input, ROOM_ID_LEN as nat).map_values(|c: char| lower_char(c)),
{
    broadcast use is_ascii_chars_encode_utf8;
    assert(is_ascii_chars(input)) by {
        assert forall|i: int| 0 <= i < input.len() implies '\0' <= #[trigger] input[i] <= '\u{7f}' by {
            assert(is_lower_char(input[i]) || is_upper_char(input[i]));
        }
    }
    let bytes = encode_utf8(input);
    let head = prefix(bytes, ROOM_ID_LEN as nat);
    let chars = prefix(input, ROOM_ID_LEN as nat);
    assert(head.len() == chars.len());
    let lowered = head.map_values(lower_map());
    assert forall|i: int| 0 <= i < lowered.len() implies is_lower_byte(#[trigger] lowered[i])
        && byte_char(lowered[i]) == lower_char(chars[i]) by {
        assert(head[i] == bytes[i]);
        assert(chars[i] == input[i]);
        assert(input[i] as u8 == bytes[i]);
        assert(is_lower_char(input[i]) || is_upper_char(input[i]));
    }
    lemma_filter_all_pass(lowered, lower_pred());
    assert(room_code_bytes(bytes) == lowered);
    assert(byte_chars(lowered) =~= chars.map_values(|c: char| lower_char(c)));
}

/// Filtering with a predicate that every element passes keeps everything.
pub proof fn lemma_filter_all_pass<A>(s: Seq<A>, pred: spec_fn(A) -> bool)
    requires
        forall|i: int| 0 <= i < s.len() ==> pred(#[trigger] s[i]),
    ensures
        s.filter(pred) == s,
    decreases s.len(),
{
    reveal(Seq::filter);
    if s.len() > 0 {
        lemma_filter_all_pass(s.drop_last(), pred);
        assert(s.drop_last().push(s.last()) =~= s);
    }
}

/// Cleaning a room code twice gives what cleaning it once gave.
pub proof fn lemma_sanitize_idempotent(input: Seq<char>)
    ensures
        sanitized_room_code(sanitized_room_code(input)) == sanitized_room_code(input),
{
    broadcast use is_ascii_chars_encode_utf8;
    broadcast use Seq::lemma_filter_pred;
    let once = sanitized_room_code(input);
    let pred = lower_pred();
    let kept = room_code_bytes(encode_utf8(input));
    let lowered = prefix(encode_utf8(input), ROOM_ID_LEN as nat).map_values(lower_map());
    Seq::lemma_filter_len(lowered, pred);
    assert(kept.len() <= ROOM_ID_LEN);
    assert forall|i: int| 0 <= i < kept.len() implies is_lower_byte(#[trigger] kept[i]) by {
        assert(pred(lowered.filter(pred)[i]));
    }
    assert(is_ascii_chars(once)) by {
        assert forall|i: int| 0 <= i < once.len() implies '\0' <= #[trigger] once[i] <= '\u{7f}' by {
            assert(is_lower_byte(kept[i]));
        }
    }
    let bytes = encode_utf8(once);
    assert(bytes =~= kept) by {
        assert forall|i: int| 0 <= i < bytes.len() implies bytes[i] == kept[i] by {
            assert(once[i] as u8 == bytes[i]);
            assert(is_lower_byte(kept[i]));
        }
    }
    assert(prefix(bytes, ROOM_ID_LEN as nat) == bytes);
    let lowered2 = bytes.map_values(lower_map());
    assert(lowered2 =~= bytes);
    lemma_filter_all_pass(bytes, pred);
}

} // verus!

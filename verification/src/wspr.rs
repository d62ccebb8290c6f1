//! WSPR message representation, source encoding of callsign, locator and
//! power, and the top-level channel encoding.

use vstd::prelude::*;
use vstd::string::StrSliceExecFns;
use vstd::string::StringExecFns;

use crate::convcode::bits_valid;
use crate::convcode::convolve;
use crate::convcode::spec_convolve;
use crate::interleave::interleave;
use crate::interleave::spec_source_of;

verus! {

/// Reason why a message could not be encoded.
#[derive(Debug, PartialEq, Eq, Structural)]
pub enum ErrorCode {
    /// A "bit" in one of the representational u8s was not 0 or 1.
    ConvolutionBitSetError,
    /// Callsign does not match the WSPR spec.
    CallsignEncodeError,
    /// Locator does not match the WSPR spec.
    LocatorEncodeError,
    /// Power does not match the WSPR spec.
    PowerEncodeError,
}

/// An ASCII decimal digit.
pub open spec fn is_digit(c: char) -> bool {
    '0' <= c && c <= '9'
}

/// An ASCII capital letter.
pub open spec fn is_letter(c: char) -> bool {
    'A' <= c && c <= 'Z'
}

/// ASCII case folding to capitals. WSPR's alphabet is pure ASCII; any
/// character this does not map into it is rejected by validation.
pub open spec fn spec_to_upper(c: char) -> char {
    if 'a' <= c && c <= 'z' {
        ((c as u32) - 32) as char
    } else {
        c
    }
}

/// Numeric code of a character in the alphanumeric alphabet: digits as
/// 0-9, capital letters as 10-35, space as 36, anything else as 0.
pub open spec fn spec_encode_char(c: char) -> u8 {
    if is_digit(c) {
        ((c as u32) - 48) as u8
    } else if is_letter(c) {
        ((c as u32) - 55) as u8
    } else if c == ' ' {
        36u8
    } else {
        0u8
    }
}

/// Numeric code of a character in the alpha-only alphabet: capital
/// letters as 0-25, space as 26, anything else as 0.
pub open spec fn spec_encode_alpha(c: char) -> u8 {
    if is_letter(c) {
        ((c as u32) - 65) as u8
    } else if c == ' ' {
        26u8
    } else {
        0u8
    }
}

/// Fold one character to a capital, leaving everything but small ASCII
/// letters alone.
fn to_upper(c: char) -> (r: char)
    ensures
        r == spec_to_upper(c),
{
    if 'a' <= c && c <= 'z' {
        ((c as u32 - 32) as u8) as char
    } else {
        c
    }
}

/// Encode a single character according to the WSPR spec
///
/// Illegal characters should be checked before this
pub fn encode_char(c: char) -> (r: u8)
    ensures
        r == spec_encode_char(c),
        r <= 36,
{
    if '0' <= c && c <= '9' {
        (c as u32 - 48) as u8  // '0'-'9' as 0-9
    } else if 'A' <= c && c <= 'Z' {
        (c as u32 - 55) as u8  // 'A'-'Z' as 10-35
    } else if c == ' ' {
        36  // space is 36
    } else {
        0  // illegal char: 0
    }
}

/// Character only fields are encoded as 0-26
pub fn encode_alpha_only(c: char) -> (r: u8)
    ensures
        r == spec_encode_alpha(c),
        r <= 26,
{
    if 'A' <= c && c <= 'Z' {
        (c as u32 - 65) as u8
    } else if c == ' ' {
        26
    } else {
        0
    }
}

/// Shift all elements in the char array to the right. Will cut the right most element if present
///
/// Used for the source encoding
pub fn prepend_space(arr: &mut [char; 6])
    ensures
        final(arr)@[0] == ' ',
        forall|j: int| 1 <= j < 6 ==> final(arr)@[j] == old(arr)@[j - 1],
{
    let mut i: usize = 0;
    while i < 5
        invariant
            i <= 5,
            forall|m: int| 5 - i < m < 6 ==> arr@[m] == old(arr)@[m - 1],
            forall|m: int| 0 <= m <= 5 - i ==> arr@[m] == old(arr)@[m],
        decreases 5 - i,
    {
        arr[5 - i] = arr[4 - i];
        i = i + 1;
    }
    arr[0] = ' ';
}

/// The callsign folded to capitals and right-padded with spaces to the
/// six protocol slots.
pub open spec fn spec_norm6(s: Seq<char>) -> Seq<char> {
    Seq::new(
        6,
        |i: int|
            if i < s.len() {
                spec_to_upper(s[i])
            } else {
                ' '
            },
    )
}

/// Re-alignment of the six slots: when the third slot holds no digit, the
/// whole buffer moves one place right behind a leading space, so that the
/// digit of a short callsign lands in the fixed digit slot.
pub open spec fn spec_align(a: Seq<char>) -> Seq<char> {
    if is_digit(a[2]) {
        a
    } else {
        seq![' '] + a.take(5)
    }
}

/// The six aligned character slots derived from a callsign.
pub open spec fn spec_callsign_chars(s: Seq<char>) -> Seq<char> {
    spec_align(spec_norm6(s))
}

/// The first three slots match one of the prefix patterns the protocol
/// permits: {space, letter, digit}, {letter, letter, digit} or
/// {digit, letter, digit}.
pub open spec fn callsign_prefix_ok(a: Seq<char>) -> bool {
    (a[0] == ' ' || is_letter(a[0]) || is_digit(a[0])) && is_letter(a[1]) && is_digit(a[2])
}

/// The last three slots are letters followed only by trailing spaces.
pub open spec fn callsign_suffix_ok(a: Seq<char>) -> bool {
    ||| is_letter(a[3]) && is_letter(a[4]) && is_letter(a[5])
    ||| is_letter(a[3]) && is_letter(a[4]) && a[5] == ' '
    ||| is_letter(a[3]) && a[4] == ' ' && a[5] == ' '
    ||| a[3] == ' ' && a[4] == ' ' && a[5] == ' '
}

/// A callsign the source encoder accepts: 3 to 6 characters whose aligned
/// slots match the protocol's prefix and suffix patterns.
pub open spec fn valid_callsign(s: Seq<char>) -> bool {
    &&& 3 <= s.len() <= 6
    &&& callsign_prefix_ok(spec_callsign_chars(s))
    &&& callsign_suffix_ok(spec_callsign_chars(s))
}

/// Mixed-radix accumulation of the six aligned slots: alphanumeric codes
/// for the first three, alpha-only codes for the last three.
pub open spec fn spec_callsign_code(s: Seq<char>) -> int {
    let a = spec_callsign_chars(s);
    ((((spec_encode_char(a[0]) * 36 + spec_encode_char(a[1])) * 10 + spec_encode_char(a[2])) * 27
        + spec_encode_alpha(a[3])) * 27 + spec_encode_alpha(a[4])) * 27 + spec_encode_alpha(a[5])
}

/// Source encoding of the callsign checking for various constraints
pub fn source_encode_callsign(callsign: &str) -> (r: Result<u32, ErrorCode>)
    ensures
        r is Ok <==> valid_callsign(callsign@),
        r matches Ok(v) ==> v == spec_callsign_code(callsign@) && v < 0x10000000,
        !valid_callsign(callsign@) ==> r == Err::<u32, ErrorCode>(ErrorCode::CallsignEncodeError),
{
    let len: usize = callsign.unicode_len();
    if len < 3 || len > 6 {
        return Err(ErrorCode::CallsignEncodeError);
    }
    let mut callsign_arr: [char; 6] = [' '; 6];
    let mut i: usize = 0;
    while i < len
        invariant
            i <= len,
            len == callsign@.len(),
            len <= 6,
            forall|j: int| 0 <= j < i ==> callsign_arr@[j] == spec_to_upper(callsign@[j]),
            forall|j: int| i <= j < 6 ==> callsign_arr@[j] == ' ',
        decreases len - i,
    {
        callsign_arr[i] = to_upper(callsign.get_char(i));
        i = i + 1;
    }
    assert(callsign_arr@ =~= spec_norm6(callsign@));

    // position 3 needs to be a number, shift shorter callsigns to the right
    let c2 = callsign_arr[2];
    if !('0' <= c2 && c2 <= '9') {
        prepend_space(&mut callsign_arr);
        assert(callsign_arr@ =~= spec_callsign_chars(callsign@));
    }
    assert(callsign_arr@ == spec_callsign_chars(callsign@));

    let a0 = callsign_arr[0];
    let a1 = callsign_arr[1];
    let a2 = callsign_arr[2];
    if !((a0 == ' ' || ('A' <= a0 && a0 <= 'Z') || ('0' <= a0 && a0 <= '9')) && ('A' <= a1 && a1
        <= 'Z') && ('0' <= a2 && a2 <= '9')) {
        return Err(ErrorCode::CallsignEncodeError);
    }

    // last 3 characters have to be letters or space
    let a3 = callsign_arr[3];
    let a4 = callsign_arr[4];
    let a5 = callsign_arr[5];
    let l3 = 'A' <= a3 && a3 <= 'Z';
    let l4 = 'A' <= a4 && a4 <= 'Z';
    let l5 = 'A' <= a5 && a5 <= 'Z';
    if !((l3 && l4 && l5) || (l3 && l4 && a5 == ' ') || (l3 && a4 == ' ' && a5 == ' ') || (a3
        == ' ' && a4 == ' ' && a5 == ' ')) {
        return Err(ErrorCode::CallsignEncodeError);
    }

    // encode characters, packed to 28 bits maximum
    let mut encoded_callsign: u32 = encode_char(a0) as u32;
    encoded_callsign = encode_char(a1) as u32 + encoded_callsign * 36;
    encoded_callsign = encode_char(a2) as u32 + encoded_callsign * 10;
    encoded_callsign = encode_alpha_only(a3) as u32 + encoded_callsign * 27;
    encoded_callsign = encode_alpha_only(a4) as u32 + encoded_callsign * 27;
    encoded_callsign = encode_alpha_only(a5) as u32 + encoded_callsign * 27;

    Ok(encoded_callsign)
}

/// The four locator characters folded to capitals.
pub open spec fn spec_loc_chars(s: Seq<char>) -> Seq<char> {
    Seq::new(4, |i: int| spec_to_upper(s[i]))
}

/// A locator the source encoder accepts: exactly four characters that
/// fold to the pattern [A-R][A-R][0-9][0-9].
pub open spec fn valid_locator(s: Seq<char>) -> bool {
    &&& s.len() == 4
    &&& 'A' <= spec_loc_chars(s)[0] && spec_loc_chars(s)[0] <= 'R'
    &&& 'A' <= spec_loc_chars(s)[1] && spec_loc_chars(s)[1] <= 'R'
    &&& is_digit(spec_loc_chars(s)[2])
    &&& is_digit(spec_loc_chars(s)[3])
}

/// Combined 22-bit code of locator and power: the grid square number
/// times 128, plus the frame-variant constant 64, plus the power in dBm.
pub open spec fn spec_locator_power_code(s: Seq<char>, power: u8) -> int {
    let a = spec_loc_chars(s);
    ((179 - 10 * spec_encode_alpha(a[0]) - spec_encode_char(a[2])) * 180 + 10 * spec_encode_alpha(
        a[1],
    ) + spec_encode_char(a[3])) * 128 + 64 + power
}

/// Source encoding for locator and power
///
/// Both are encoded into a combined 22 bit representation
pub fn source_encode_locator_power(locator: &str, power: u8) -> (r: Result<u32, ErrorCode>)
    ensures
        r is Ok <==> valid_locator(locator@) && power <= 60,
        r matches Ok(v) ==> v == spec_locator_power_code(locator@, power) && 64 <= v < 0x400000,
        !valid_locator(locator@) ==> r == Err::<u32, ErrorCode>(ErrorCode::LocatorEncodeError),
        valid_locator(locator@) && power > 60 ==> r == Err::<u32, ErrorCode>(
            ErrorCode::PowerEncodeError,
        ),
{
    let len: usize = locator.unicode_len();
    if len != 4 {
        return Err(ErrorCode::LocatorEncodeError);
    }
    let mut locator_arr: [char; 4] = [' '; 4];
    let mut i: usize = 0;
    while i < 4
        invariant
            i <= 4,
            locator@.len() == 4,
            forall|j: int| 0 <= j < i ==> locator_arr@[j] == spec_to_upper(locator@[j]),
        decreases 4 - i,
    {
        locator_arr[i] = to_upper(locator.get_char(i));
        i = i + 1;
    }
    assert(locator_arr@ =~= spec_loc_chars(locator@));

    // check locator format
    let a0 = locator_arr[0];
    let a1 = locator_arr[1];
    let a2 = locator_arr[2];
    let a3 = locator_arr[3];
    if !(('A' <= a0 && a0 <= 'R') && ('A' <= a1 && a1 <= 'R') && ('0' <= a2 && a2 <= '9') && ('0'
        <= a3 && a3 <= '9')) {
        return Err(ErrorCode::LocatorEncodeError);
    }

    let e0: i32 = encode_alpha_only(a0) as i32;
    let e1: i32 = encode_alpha_only(a1) as i32;
    let e2: i32 = encode_char(a2) as i32;
    let e3: i32 = encode_char(a3) as i32;

    let encoded_locator: i32 = (179 - 10 * e0 - e2) * 180 + 10 * e1 + e3;

    // check power
    if power > 60 {
        return Err(ErrorCode::PowerEncodeError);
    }

    // combine locator and power
    Ok(encoded_locator as u32 * 128 + 64 + power as u32)
}

/// An extracted bit is 0 or 1.
proof fn lemma_bit_extract_is_bit()
    by (bit_vector)
    ensures
        forall|x: u64, k: u64| #[trigger] ((x >> k) & 1) <= 1,
{
}

/// WSPR Message representation holding the unencoded data of the message
///
/// May contain invalid data. Checks are only applied on encode
pub struct WSPRMessage {
    pub callsign: String,
    pub locator: String,
    pub power: u8,
}

impl WSPRMessage {
    pub fn new(callsign: &str, locator: &str, power: u8) -> (m: WSPRMessage)
        ensures
            m.callsign@ == callsign@,
            m.locator@ == locator@,
            m.power == power,
    {
        WSPRMessage { callsign: String::from_str(callsign), locator: String::from_str(locator), power }
    }

    /// Get the channel encoded 4-FSK symbols for a standard message
    ///
    /// Will throw an error code if the data of the message does not conform to the spec
    pub fn encode(&self) -> (r: Result<[u8; 162], ErrorCode>)
        ensures
            r is Ok <==> valid_callsign(self.callsign@) && valid_locator(self.locator@)
                && self.power <= 60,
            r matches Ok(symbols) ==> symbols@ == spec_channel_symbols(
                self.callsign@,
                self.locator@,
                self.power,
            ) && forall|j: int| 0 <= j < 162 ==> #[trigger] symbols@[j] <= 3,
            !valid_callsign(self.callsign@) ==> r == Err::<[u8; 162], ErrorCode>(
                ErrorCode::CallsignEncodeError,
            ),
            valid_callsign(self.callsign@) && !valid_locator(self.locator@) ==> r == Err::<
                [u8; 162],
                ErrorCode,
            >(ErrorCode::LocatorEncodeError),
            valid_callsign(self.callsign@) && valid_locator(self.locator@) && self.power > 60
                ==> r == Err::<[u8; 162], ErrorCode>(ErrorCode::PowerEncodeError),
    {
        let mut encoded_frame: [u8; 162] = [0; 162];
        let s = SourceFrame::new(self)?;
        let packed = s.packed_src_frame();
        let convolved = convolve(packed)?;
        let interleaved_frame = interleave(convolved);

        proof {
            broadcast use crate::convcode::lemma_parity_is_bit;
        }
        let ghost conv = convolved@;
        let ghost syms = spec_channel_symbols(self.callsign@, self.locator@, self.power);
        assert(conv == spec_convolve(
            spec_packed_bits(
                spec_callsign_code(self.callsign@) as u32,
                spec_locator_power_code(self.locator@, self.power) as u32,
            ),
        ));
        assert(forall|j: int| 0 <= j < 162 ==> #[trigger] conv[j] <= 1);

        let mut i: usize = 0;
        while i < 162
            invariant
                i <= 162,
                syms == Seq::new(
                    162,
                    |j: int| (spec_sync_bit(j) + 2 * conv[spec_source_of(j)]) as u8,
                ),
                forall|j: int| 0 <= j < 162 ==> #[trigger] conv[j] <= 1,
                forall|j: int|
                    0 <= j < 162 ==> 0 <= #[trigger] spec_source_of(j) < 162
                        && interleaved_frame@[j] == conv[spec_source_of(j)],
                forall|j: int| 0 <= j < i ==> encoded_frame@[j] == syms[j],
                forall|j: int| 0 <= j < i ==> encoded_frame@[j] <= 3,
            decreases 162 - i,
        {
            let s_bit = sync_bit(i);
            proof {
                assert(interleaved_frame@[i as int] == conv[spec_source_of(i as int)]);
                assert(conv[spec_source_of(i as int)] <= 1);
            }
            encoded_frame[i] = s_bit + 2 * interleaved_frame[i];
            i = i + 1;
        }
        assert(encoded_frame@ =~= syms);

        Ok(encoded_frame)
    }
}

/// Source encoded WSPR frame
///
/// Holds the 50 bit source encoded data in two u32s
pub struct SourceFrame {
    pub callsign: u32,
    pub locator_power: u32,
}

/// The 50-bit payload as one value: the callsign code in the high 28
/// bits, the locator/power code in the low 22 bits.
pub open spec fn spec_packed_value(cs: u32, lp: u32) -> u64 {
    ((cs as u64) << 22) | (lp as u64)
}

/// The 50 payload bits, most significant first.
pub open spec fn spec_packed_bits(cs: u32, lp: u32) -> Seq<u8> {
    Seq::new(50, |i: int| ((spec_packed_value(cs, lp) >> ((49 - i) as u64)) & 1) as u8)
}

impl SourceFrame {
    pub fn new(msg: &WSPRMessage) -> (r: Result<SourceFrame, ErrorCode>)
        ensures
            r is Ok <==> valid_callsign(msg.callsign@) && valid_locator(msg.locator@) && msg.power
                <= 60,
            r matches Ok(sf) ==> {
                &&& sf.callsign == spec_callsign_code(msg.callsign@)
                &&& sf.callsign < 0x10000000
                &&& sf.locator_power == spec_locator_power_code(msg.locator@, msg.power)
                &&& sf.locator_power < 0x400000
            },
            !valid_callsign(msg.callsign@) ==> r == Err::<SourceFrame, ErrorCode>(
                ErrorCode::CallsignEncodeError,
            ),
            valid_callsign(msg.callsign@) && !valid_locator(msg.locator@) ==> r == Err::<
                SourceFrame,
                ErrorCode,
            >(ErrorCode::LocatorEncodeError),
            valid_callsign(msg.callsign@) && valid_locator(msg.locator@) && msg.power > 60 ==> r
                == Err::<SourceFrame, ErrorCode>(ErrorCode::PowerEncodeError),
    {
        Ok(
            SourceFrame {
                callsign: source_encode_callsign(msg.callsign.as_str())?,
                locator_power: source_encode_locator_power(msg.locator.as_str(), msg.power)?,
            },
        )
    }

    /// pack into one u64 with only the right most 50 bits used
    pub fn packed_src_frame(&self) -> (packed: [u8; 50])
        ensures
            packed@ == spec_packed_bits(self.callsign, self.locator_power),
            bits_valid(packed@),
    {
        let encoded: u64 = ((self.callsign as u64) << 22) | (self.locator_power as u64);

        let mut packed_src_frame: [u8; 50] = [0; 50];
        let mut i: usize = 0;
        while i < 50
            invariant
                i <= 50,
                encoded == spec_packed_value(self.callsign, self.locator_power),
                forall|j: int|
                    0 <= j < i ==> packed_src_frame@[j] == spec_packed_bits(
                        self.callsign,
                        self.locator_power,
                    )[j] && packed_src_frame@[j] <= 1,
            decreases 50 - i,
        {
            proof {
                lemma_bit_extract_is_bit();
            }
            let sh: u64 = (49 - i) as u64;
            packed_src_frame[i] = ((encoded >> sh) & 1) as u8;
            i = i + 1;
        }
        assert(packed_src_frame@ =~= spec_packed_bits(self.callsign, self.locator_power));

        packed_src_frame
    }
}

/// The constant 162-bit synchronization vector, fixed by the protocol,
/// packed most-significant-bit first into three 54-bit segments:
/// `SYNC0` holds positions 0..54, `SYNC1` positions 54..108 and `SYNC2`
/// positions 108..162.
pub const SYNC0: u64 = 0x302389780940B3;
pub const SYNC1: u64 = 0x11A1AA92C6A209;
pub const SYNC2: u64 = 0x0ECD1C14C06B18;

/// Bit `i` of the synchronization vector.
pub open spec fn spec_sync_bit(i: int) -> u8 {
    if i < 54 {
        ((SYNC0 >> ((53 - i) as u64)) & 1) as u8
    } else if i < 108 {
        ((SYNC1 >> ((107 - i) as u64)) & 1) as u8
    } else {
        ((SYNC2 >> ((161 - i) as u64)) & 1) as u8
    }
}

/// Look up one bit of the synchronization vector.
fn sync_bit(i: usize) -> (b: u8)
    requires
        i < 162,
    ensures
        b == spec_sync_bit(i as int),
        b <= 1,
{
    proof {
        lemma_bit_extract_is_bit();
    }
    if i < 54 {
        let sh: u64 = (53 - i) as u64;
        ((SYNC0 >> sh) & 1) as u8
    } else if i < 108 {
        let sh: u64 = (107 - i) as u64;
        ((SYNC1 >> sh) & 1) as u8
    } else {
        let sh: u64 = (161 - i) as u64;
        ((SYNC2 >> sh) & 1) as u8
    }
}

/// The channel symbols of a message: the synchronization bit of each
/// position plus twice the interleaved code bit placed there.
pub open spec fn spec_channel_symbols(callsign: Seq<char>, locator: Seq<char>, power: u8) -> Seq<
    u8,
> {
    let conv = spec_convolve(
        spec_packed_bits(
            spec_callsign_code(callsign) as u32,
            spec_locator_power_code(locator, power) as u32,
        ),
    );
    Seq::new(162, |i: int| (spec_sync_bit(i) + 2 * conv[spec_source_of(i)]) as u8)
}

/// Encoding is deterministic. `encode` pins its outcome to spec functions
/// of the field views alone, so two messages holding the same callsign,
/// locator and power pass the same validation and, when they pass, encode
/// to the same 162 channel symbols.
pub proof fn lemma_encode_deterministic(m1: &WSPRMessage, m2: &WSPRMessage)
    requires
        m1.callsign@ == m2.callsign@,
        m1.locator@ == m2.locator@,
        m1.power == m2.power,
    ensures
        valid_callsign(m1.callsign@) == valid_callsign(m2.callsign@),
        valid_locator(m1.locator@) == valid_locator(m2.locator@),
        spec_channel_symbols(m1.callsign@, m1.locator@, m1.power) == spec_channel_symbols(
            m2.callsign@,
            m2.locator@,
            m2.power,
        ),
{
}

} // verus!

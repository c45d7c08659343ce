//! The session-test drivers' bookkeeping: their timing record and the textual
//! payload that stamps a peer's identity as a zero-padded decimal.

use vstd::prelude::*;

verus! {

/// The timing milestones of one session-test worker.
#[derive(Debug, Clone)]
pub struct TimeStatus {
    pub session_start: Option<u128>,
    pub pub_sub_worker_start: Option<u128>,
    pub list_start_timestamp: Vec<u128>,
    pub list_sess_start_timestamp: Vec<u128>,
    pub list_timestamp_peer_num: Vec<usize>,
    pub list_timestamp_res: Vec<Vec<String>>,
    pub session_id: Option<String>,
}

/// Ten to the `n`th power.
pub open spec fn pow10(n: nat) -> nat
    decreases n,
{
    if n == 0 {
        1
    } else {
        10 * pow10((n - 1) as nat)
    }
}

/// The width of the decimal peer stamp at the head of a textual payload.
pub const STAMP_DIGITS: usize = 8;

/// Byte `i` of the textual payload stamping `peer_id`: the ASCII digits of
/// the zero-padded eight-digit decimal of the identity, then ASCII dots.
pub open spec fn payload_byte(peer_id: usize, i: int) -> u8 {
    if i < STAMP_DIGITS as int {
        (48 + (peer_id as nat / pow10((STAMP_DIGITS as int - 1 - i) as nat)) % 10) as u8
    } else {
        46
    }
}

/// Character `i` of the textual payload stamping `peer_id`.
pub open spec fn payload_char(peer_id: usize, i: int) -> char {
    payload_byte(peer_id, i) as char
}

/// Relies on `String::from_utf8`: a vector of ASCII bytes becomes the string
/// of exactly those characters (UTF-8 is the identity on ASCII), and on
/// ASCII input the conversion never fails.
#[verifier::external_body]
fn ascii_to_string(bytes: Vec<u8>) -> (r: String)
    requires
        forall|i: int| 0 <= i < bytes@.len() ==> bytes@[i] < 128,
    ensures
        r@.len() == bytes@.len(),
        forall|i: int| 0 <= i < bytes@.len() ==> r@[i] == bytes@[i] as char,
{
    match String::from_utf8(bytes) {
        Ok(s) => s,
        Err(_) => String::new(),
    }
}

/// The textual benchmark payload: the peer's identity as an eight-digit
/// zero-padded decimal, padded with dots to `args_payload_size` characters
/// (never fewer than the eight digits themselves).
pub fn get_msg_payload(args_payload_size: usize, peer_id: usize) -> (r: String)
    requires
        peer_id < pow10(STAMP_DIGITS as nat),
    ensures
        r@.len() == if args_payload_size < STAMP_DIGITS {
            STAMP_DIGITS as int
        } else {
            args_payload_size as int
        },
        forall|i: int| 0 <= i < r@.len() ==> r@[i] == payload_char(peer_id, i),
{
    let mut bytes: Vec<u8> = Vec::new();
    let mut divisor: usize = 10_000_000;
    proof {
        reveal_with_fuel(pow10, 9);
        assert(pow10((STAMP_DIGITS - 1) as nat) == 10_000_000);
    }
    for k in 0..STAMP_DIGITS
        invariant
            k < STAMP_DIGITS ==> divisor == pow10((STAMP_DIGITS - 1 - k) as nat),
            bytes@.len() == k,
            forall|j: int| 0 <= j < k ==> bytes@[j] == payload_byte(peer_id, j),
    {
        proof {
            assert(divisor > 0) by {
                lemma_pow10_positive((STAMP_DIGITS - 1 - k) as nat);
            }
        }
        let digit = (peer_id / divisor) % 10;
        bytes.push(48 + (digit as u8));
        if k + 1 < STAMP_DIGITS {
            proof {
                assert(pow10((STAMP_DIGITS - 1 - k) as nat) == 10 * pow10(
                    (STAMP_DIGITS - 2 - k) as nat,
                ));
            }
            divisor = divisor / 10;
        }
    }
    let total = if args_payload_size < STAMP_DIGITS {
        STAMP_DIGITS
    } else {
        args_payload_size
    };
    let mut k = STAMP_DIGITS;
    while k < total
        invariant
            STAMP_DIGITS <= k <= total,
            bytes@.len() == k,
            forall|j: int| 0 <= j < k ==> bytes@[j] == payload_byte(peer_id, j),
        decreases total - k,
    {
        bytes.push(46);
        k = k + 1;
    }
    proof {
        assert forall|i: int| 0 <= i < bytes@.len() implies bytes@[i] < 128 by {
            assert(bytes@[i] == payload_byte(peer_id, i));
        }
    }
    ascii_to_string(bytes)
}

/// Every power of ten is positive.
proof fn lemma_pow10_positive(n: nat)
    ensures
        pow10(n) >= 1,
    decreases n,
{
    if n > 0 {
        lemma_pow10_positive((n - 1) as nat);
    }
}

} // verus!

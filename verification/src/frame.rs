//! The frame store: the single current frame, overwritten by producers and
//! polled by consumers.

use vstd::prelude::*;
use vstd::string::StringExecFns;
use crate::validate::{
    fault_of, is_hex_digit, payload_fault, valid_frame, validate_frame_payload, Fault,
    ValidationError,
};

verus! {

/// The frame limit of a store that is made without one, in characters.
pub const DEFAULT_MAX_FRAME_LEN: usize = 1_000_000;

/// The frame that a store holds after `payload` was submitted to it: the
/// payload where it is a valid frame, else what the store held before.
pub open spec fn frame_after_save(current: Seq<char>, payload: Seq<char>, max: nat) -> Seq<char> {
    if valid_frame(payload, max) {
        payload
    } else {
        current
    }
}

/// Holds the most recently accepted frame: a string of hexadecimal digits no
/// longer than the store's limit. A new store holds the empty frame.
pub struct FrameStore {
    frame: String,
    max_len: usize,
}

impl View for FrameStore {
    type V = Seq<char>;

    /// The frame that the store holds.
    closed spec fn view(&self) -> Seq<char> {
        self.frame@
    }
}

impl FrameStore {
    /// The largest number of characters that a frame of this store may have.
    pub closed spec fn limit(&self) -> nat {
        self.max_len as nat
    }

    #[verifier::type_invariant]
    spec fn holds_valid_frame(&self) -> bool {
        valid_frame(self.frame@, self.max_len as nat)
    }

    /// A store with the limit [`DEFAULT_MAX_FRAME_LEN`], holding the empty
    /// frame.
    pub fn new() -> (store: FrameStore)
        ensures
            store@ == Seq::<char>::empty(),
            store.limit() == DEFAULT_MAX_FRAME_LEN,
    {
        FrameStore { frame: String::new(), max_len: DEFAULT_MAX_FRAME_LEN }
    }

    /// A store with the limit `max_len`, holding the empty frame.
    pub fn with_limit(max_len: usize) -> (store: FrameStore)
        ensures
            store@ == Seq::<char>::empty(),
            store.limit() == max_len,
    {
        FrameStore { frame: String::new(), max_len }
    }

    /// The largest number of characters that a frame of this store may have.
    pub fn max_len(&self) -> (max: usize)
        ensures
            max == self.limit(),
    {
        self.max_len
    }

    /// A copy of the current frame. What a store holds is always a valid
    /// frame for its limit.
    pub fn read(&self) -> (frame: String)
        ensures
            frame@ == self@,
            valid_frame(frame@, self.limit()),
    {
        proof {
            use_type_invariant(self);
        }
        self.frame.clone()
    }

    /// Replaces the whole frame by `payload`, which the caller has validated.
    pub fn write(&mut self, payload: &str)
        requires
            valid_frame(payload@, old(self).limit()),
        ensures
            final(self)@ == payload@,
            final(self).limit() == old(self).limit(),
    {
        self.frame = String::from_str(payload);
    }

    /// The current frame; the empty string if none was ever saved.
    pub fn get_frame(&self) -> (frame: String)
        ensures
            frame@ == self@,
            valid_frame(frame@, self.limit()),
    {
        self.read()
    }

    /// Validates `payload` against the store's limit and, if it is valid,
    /// makes it the current frame. A rejected payload leaves the store as it
    /// was.
    pub fn save_frame(&mut self, payload: &str) -> (r: Result<(), ValidationError>)
        ensures
            fault_of(r) == payload_fault(payload@, old(self).limit()),
            final(self)@ == frame_after_save(old(self)@, payload@, old(self).limit()),
            final(self).limit() == old(self).limit(),
    {
        match validate_frame_payload(payload, self.max_len) {
            Ok(()) => {
                self.write(payload);
                Ok(())
            },
            Err(e) => Err(e),
        }
    }
}

/// Reading changes nothing: two reads of a store, with no save between
/// them, return the same frame.
pub proof fn law_read_is_repeatable(store: FrameStore, first: Seq<char>, second: Seq<char>)
    requires
        first == store@,
        second == store@,
    ensures
        first == second,
{
}

/// A payload is accepted exactly if it is a valid frame for the limit.
pub proof fn law_accepted_iff_valid(payload: Seq<char>, max: nat)
    ensures
        payload_fault(payload, max) is None <==> valid_frame(payload, max),
{
}

/// After a valid payload was saved, the store holds exactly that payload,
/// whatever it held before.
pub proof fn law_saved_frame_is_read_back(current: Seq<char>, payload: Seq<char>, max: nat)
    requires
        valid_frame(payload, max),
    ensures
        payload_fault(payload, max) is None,
        frame_after_save(current, payload, max) == payload,
{
}

/// A payload longer than the limit is rejected as too large, whatever its
/// characters are, and the store keeps its frame.
pub proof fn law_oversized_payload_is_rejected(current: Seq<char>, payload: Seq<char>, max: nat)
    requires
        payload.len() > max,
    ensures
        payload_fault(payload, max) == Some(Fault::PayloadTooLarge { len: payload.len(), max }),
        frame_after_save(current, payload, max) == current,
{
}

/// A payload within the limit that holds a character other than a
/// hexadecimal digit is rejected for its characters, and the store keeps its
/// frame.
pub proof fn law_non_hex_payload_is_rejected(
    current: Seq<char>,
    payload: Seq<char>,
    max: nat,
    at: int,
)
    requires
        payload.len() <= max,
        0 <= at < payload.len(),
        !is_hex_digit(payload[at]),
    ensures
        payload_fault(payload, max) == Some(Fault::InvalidCharset),
        frame_after_save(current, payload, max) == current,
{
}

/// Of two valid payloads saved one after the other, the later one is what the
/// store holds. So in whichever order two racing saves take the store, it
/// ends with one of the two payloads, whole.
pub proof fn law_last_write_wins(current: Seq<char>, a: Seq<char>, b: Seq<char>, max: nat)
    requires
        valid_frame(a, max),
        valid_frame(b, max),
    ensures
        frame_after_save(frame_after_save(current, a, max), b, max) == b,
        frame_after_save(frame_after_save(current, b, max), a, max) == a,
{
}

/// Whatever is submitted to a store that holds a valid frame, it holds a
/// valid frame afterwards: either the payload or what it held before.
pub proof fn law_store_stays_valid(current: Seq<char>, payload: Seq<char>, max: nat)
    requires
        valid_frame(current, max),
    ensures
        valid_frame(frame_after_save(current, payload, max), max),
        frame_after_save(current, payload, max) == payload || frame_after_save(
            current,
            payload,
            max,
        ) == current,
{
}

} // verus!

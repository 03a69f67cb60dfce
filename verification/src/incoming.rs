//! The reading of pakkets from a connection.
//!
//! A connection is read in waves, each of them what the buffer took in at once. What was left
//! over of the waves before and the new wave are cut after every end delimiter. The fragments
//! that end in one are pakkets; what stands behind the last one is left over for the next wave.
//! How a stream is cut into waves makes no difference to the pakkets that are read.

use vstd::prelude::*;
use vstd::slice::slice_to_vec;
use vstd::utf8::*;

use crate::error::ChatError;
use crate::message::{Message, MessageView};
use crate::pakket::TcpPakket;
use crate::text::decode;

verus! {

/// How many bytes are taken in at once.
pub const INCOMING_BUFFER_LEN: usize = Message::MAX_USERNAME_LEN * 10 + Message::MAX_CONTENT_LEN
    * 10 + 200;

/// What can be wrong with a wave.
pub enum Fault {
    EmptyWave,
    /// These bytes are no text.
    NotUtf8(Seq<u8>),
    WrongDelimiters,
}

/// Whether the error reports the fault.
pub open spec fn reports(e: ChatError, fault: Fault) -> bool {
    match fault {
        Fault::EmptyWave => e is EmptyWave,
        Fault::NotUtf8(bytes) => crate::text::reports_not_utf8(e, bytes),
        Fault::WrongDelimiters => e is WrongDelimiters,
    }
}

/// The fragments that end in an end delimiter, in order.
pub open spec fn whole_fragments(bytes: Seq<u8>) -> Seq<Seq<u8>>
    decreases bytes.len(),
{
    proof {
        bytes.index_of_first_ensures(TcpPakket::END_DELIMITER);
    }
    match bytes.index_of_first(TcpPakket::END_DELIMITER) {
        Some(i) => seq![bytes.take(i + 1)] + whole_fragments(bytes.skip(i + 1)),
        None => seq![],
    }
}

/// The bytes behind the last end delimiter.
pub open spec fn remainder(bytes: Seq<u8>) -> Seq<u8> {
    match bytes.index_of_last(TcpPakket::END_DELIMITER) {
        Some(i) => bytes.skip(i + 1),
        None => bytes,
    }
}

/// The pakket that the bytes make.
pub open spec fn read_whole(bytes: Seq<u8>) -> Result<Seq<char>, Fault> {
    if !valid_utf8(bytes) {
        Err(Fault::NotUtf8(bytes))
    } else if !crate::pakket::is_pakked(decode_utf8(bytes)) {
        Err(Fault::WrongDelimiters)
    } else {
        Ok(decode_utf8(bytes))
    }
}

/// What the whole fragments are read as.
pub open spec fn readings(bytes: Seq<u8>) -> Seq<Result<Seq<char>, Fault>> {
    whole_fragments(bytes).map_values(|frag: Seq<u8>| read_whole(frag))
}

/// How many readings succeed before the first that fails.
pub open spec fn ok_count(all: Seq<Result<Seq<char>, Fault>>) -> nat
    decreases all.len(),
{
    if all.len() == 0 || all[0] is Err {
        0
    } else {
        1 + ok_count(all.drop_first())
    }
}

/// What is read before the first reading that fails.
pub open spec fn before_fault(all: Seq<Result<Seq<char>, Fault>>) -> Seq<Seq<char>> {
    Seq::new(ok_count(all), |i: int| all[i]->Ok_0)
}

/// Why the first reading that fails does so.
pub open spec fn first_fault(all: Seq<Result<Seq<char>, Fault>>) -> Option<Fault> {
    if ok_count(all) < all.len() {
        Some(all[ok_count(all) as int]->Err_0)
    } else {
        None
    }
}

/// The pakkets that a wave brings, when `previous` was left over: all that are read before
/// the first fault.
pub open spec fn pakkets_read(previous: Seq<u8>, wave: Seq<u8>) -> Seq<Seq<char>> {
    if wave.len() == 0 {
        seq![]
    } else {
        before_fault(readings(previous + wave))
    }
}

/// The first fault of a wave, when `previous` was left over.
pub open spec fn fault_met(previous: Seq<u8>, wave: Seq<u8>) -> Option<Fault> {
    if wave.len() == 0 {
        Some(Fault::EmptyWave)
    } else {
        first_fault(readings(previous + wave))
    }
}

/// What is left over after a wave without a fault, when `previous` was left over before.
pub open spec fn left_over(previous: Seq<u8>, wave: Seq<u8>) -> Seq<u8> {
    remainder(previous + wave)
}

/// The texts of pakkets.
pub open spec fn texts_of(pakkets: Seq<TcpPakket>) -> Seq<Seq<char>> {
    pakkets.map_values(|pakket: TcpPakket| pakket@)
}

/// The pakkets of a wave, and what stopped their reading, if anything did.
pub struct Wave {
    pub pakkets: Vec<TcpPakket>,
    pub failure: Option<ChatError>,
}

/// What came of an attempt to read from a connection.
pub enum Reading {
    /// These bytes, or none at the end of the connection.
    Bytes(Vec<u8>),
    /// The connection could not be read.
    Failed,
}

/// How the reading of a connection goes on.
pub enum Next {
    Continue,
    Stop,
    Fail(ChatError),
}

/// The pakkets to deliver, and how the reading goes on after them.
pub struct Step {
    pub pakkets: Vec<TcpPakket>,
    pub next: Next,
}

/// The state of the reading of a connection.
pub struct Incoming {
    previous_fragment: Vec<u8>,
}

impl View for Incoming {
    type V = Seq<u8>;

    /// What is left over.
    closed spec fn view(&self) -> Seq<u8> {
        self.previous_fragment@
    }
}

proof fn first_end_is(bytes: Seq<u8>, i: int)
    requires
        0 <= i < bytes.len(),
        bytes[i] == TcpPakket::END_DELIMITER,
        forall|j: int| 0 <= j < i ==> bytes[j] != TcpPakket::END_DELIMITER,
    ensures
        bytes.index_of_first(TcpPakket::END_DELIMITER) == Some(i),
{
    bytes.index_of_first_ensures(TcpPakket::END_DELIMITER);
    assert(bytes.contains(bytes[i]));
}

proof fn no_end(bytes: Seq<u8>)
    requires
        !bytes.contains(TcpPakket::END_DELIMITER),
    ensures
        whole_fragments(bytes) == Seq::<Seq<u8>>::empty(),
        remainder(bytes) == bytes,
{
    bytes.index_of_first_ensures(TcpPakket::END_DELIMITER);
    bytes.index_of_last_ensures(TcpPakket::END_DELIMITER);
}

proof fn remainder_behind(bytes: Seq<u8>, n: int)
    requires
        0 < n <= bytes.len(),
        bytes[n - 1] == TcpPakket::END_DELIMITER,
    ensures
        remainder(bytes) == remainder(bytes.skip(n)),
{
    let rest = bytes.skip(n);
    bytes.index_of_last_ensures(TcpPakket::END_DELIMITER);
    rest.index_of_last_ensures(TcpPakket::END_DELIMITER);
    assert(bytes.contains(bytes[n - 1]));
    let last = bytes.index_of_last(TcpPakket::END_DELIMITER)->0;
    match rest.index_of_last(TcpPakket::END_DELIMITER) {
        Some(i) => {
            assert(bytes[n + i] == TcpPakket::END_DELIMITER);
            if last > n + i {
                assert(rest[last - n] == bytes[last]);
            }
            assert(last == n + i);
            assert(bytes.skip(last + 1) == rest.skip(i + 1));
        },
        None => {
            if last >= n {
                assert(rest[last - n] == bytes[last]);
            }
            assert(last == n - 1);
        },
    }
}

/// What is left over holds no end delimiter.
pub proof fn left_over_holds_no_end(previous: Seq<u8>, wave: Seq<u8>)
    ensures
        !left_over(previous, wave).contains(TcpPakket::END_DELIMITER),
{
    let bytes = previous + wave;
    let rest = remainder(bytes);
    bytes.index_of_last_ensures(TcpPakket::END_DELIMITER);
    if rest.contains(TcpPakket::END_DELIMITER) {
        let k = rest.index_of(TcpPakket::END_DELIMITER);
        let last = bytes.index_of_last(TcpPakket::END_DELIMITER)->0;
        assert(bytes.contains(TcpPakket::END_DELIMITER));
        assert(bytes[last + 1 + k] == rest[k]);
    }
}

proof fn cut_bytes(a: Seq<u8>, b: Seq<u8>)
    ensures
        whole_fragments(a + b) == whole_fragments(a) + whole_fragments(remainder(a) + b),
        remainder(a + b) == remainder(remainder(a) + b),
    decreases a.len(),
{
    a.index_of_first_ensures(TcpPakket::END_DELIMITER);
    match a.index_of_first(TcpPakket::END_DELIMITER) {
        Some(i) => {
            let all = a + b;
            let rest = a.skip(i + 1);
            assert forall|j: int| 0 <= j < i implies all[j] != TcpPakket::END_DELIMITER by {
                assert(all[j] == a[j]);
            }
            first_end_is(all, i);
            assert(all.skip(i + 1) == rest + b);
            assert(all.take(i + 1) == a.take(i + 1));
            cut_bytes(rest, b);
            remainder_behind(a, i + 1);
            remainder_behind(all, i + 1);
            assert(whole_fragments(all) == seq![a.take(i + 1)] + whole_fragments(rest + b));
            assert(whole_fragments(a) == seq![a.take(i + 1)] + whole_fragments(rest));
            assert(seq![a.take(i + 1)] + (whole_fragments(rest) + whole_fragments(
                remainder(rest) + b,
            )) == seq![a.take(i + 1)] + whole_fragments(rest) + whole_fragments(remainder(rest) + b));
        },
        None => {
            no_end(a);
            assert(whole_fragments(a) + whole_fragments(a + b) == whole_fragments(a + b));
        },
    }
}

proof fn ok_count_is(all: Seq<Result<Seq<char>, Fault>>, n: nat)
    requires
        n <= all.len(),
        forall|i: int| 0 <= i < n ==> (#[trigger] all[i]) is Ok,
        n < all.len() ==> all[n as int] is Err,
    ensures
        ok_count(all) == n,
    decreases n,
{
    if n > 0 {
        assert(all[0] is Ok);
        let rest = all.drop_first();
        assert forall|i: int| 0 <= i < n - 1 implies (#[trigger] rest[i]) is Ok by {
            assert(all[i + 1] is Ok);
        }
        ok_count_is(rest, (n - 1) as nat);
    }
}

proof fn ok_count_bounds(all: Seq<Result<Seq<char>, Fault>>)
    ensures
        ok_count(all) <= all.len(),
        forall|i: int| 0 <= i < ok_count(all) ==> (#[trigger] all[i]) is Ok,
        ok_count(all) < all.len() ==> all[ok_count(all) as int] is Err,
    decreases all.len(),
{
    if all.len() > 0 && all[0] is Ok {
        let rest = all.drop_first();
        ok_count_bounds(rest);
        assert forall|i: int| 0 <= i < ok_count(all) implies (#[trigger] all[i]) is Ok by {
            if i > 0 {
                assert(rest[i - 1] == all[i]);
            }
        }
    }
}

proof fn cut_readings(a: Seq<Result<Seq<char>, Fault>>, b: Seq<Result<Seq<char>, Fault>>)
    ensures
        first_fault(a) is Some ==> before_fault(a + b) == before_fault(a) && first_fault(a + b)
            == first_fault(a),
        first_fault(a) is None ==> before_fault(a + b) == before_fault(a) + before_fault(b)
            && first_fault(a + b) == first_fault(b),
{
    let all = a + b;
    ok_count_bounds(a);
    ok_count_bounds(b);
    let n = if ok_count(a) < a.len() {
        ok_count(a)
    } else {
        a.len() + ok_count(b)
    };
    assert forall|i: int| 0 <= i < n implies (#[trigger] all[i]) is Ok by {
        if i < a.len() {
            assert(all[i] == a[i]);
        } else {
            assert(all[i] == b[i - a.len()]);
        }
    }
    ok_count_is(all, n);
    if ok_count(a) < a.len() {
        assert(before_fault(all) == before_fault(a));
    } else {
        assert(before_fault(all) == before_fault(a) + before_fault(b));
    }
}

/// Cuts bytes after every end delimiter: the fragments that end in one, and what stands behind
/// the last one.
pub fn split_fragments(bytes: &[u8]) -> (r: (Vec<Vec<u8>>, Vec<u8>))
    ensures
        r.0@.map_values(|frag: Vec<u8>| frag@) == whole_fragments(bytes@),
        r.1@ == remainder(bytes@),
{
    let mut frags: Vec<Vec<u8>> = Vec::new();
    let mut frag: Vec<u8> = Vec::new();
    let mut i: usize = 0;
    assert(bytes@.skip(0) == bytes@);
    while i < bytes.len()
        invariant
            i <= bytes.len(),
            frag.len() <= i,
            frag@ == bytes@.subrange(i - frag.len(), i as int),
            !frag@.contains(TcpPakket::END_DELIMITER),
            frags@.map_values(|frag: Vec<u8>| frag@) + whole_fragments(bytes@.skip(i - frag.len()))
                == whole_fragments(bytes@),
            remainder(bytes@.skip(i - frag.len())) == remainder(bytes@),
        decreases bytes.len() - i,
    {
        let ghost start = i - frag.len();
        let ghost rest = bytes@.skip(start);
        let byte = bytes[i];
        frag.push(byte);
        i = i + 1;
        if byte == TcpPakket::END_DELIMITER {
            proof {
                assert forall|j: int| 0 <= j < frag.len() - 1 implies rest[j]
                    != TcpPakket::END_DELIMITER by {
                    assert(rest[j] == bytes@.subrange(start, i - 1)[j]);
                }
                first_end_is(rest, frag.len() - 1);
                remainder_behind(rest, frag.len() as int);
                assert(rest.take(frag.len() as int) == frag@);
                assert(rest.skip(frag.len() as int) == bytes@.skip(i as int));
            }
            let ghost done = frags@.map_values(|frag: Vec<u8>| frag@);
            let ghost whole = frag@;
            frags.push(frag);
            frag = Vec::new();
            assert(frags@.map_values(|frag: Vec<u8>| frag@) == done.push(whole));
            assert(done.push(whole) + whole_fragments(bytes@.skip(i as int)) == done + (seq![whole]
                + whole_fragments(bytes@.skip(i as int))));
        } else {
            assert forall|j: int| 0 <= j < frag.len() implies frag@[j] != TcpPakket::END_DELIMITER by {
                if j < frag.len() - 1 {
                    assert(bytes@.subrange(start, i - 1).contains(bytes@.subrange(start, i - 1)[j]));
                }
            }
        }
    }
    let ghost rest = bytes@.skip(i - frag.len());
    assert(rest == frag@);
    proof {
        no_end(rest);
        assert(frags@.map_values(|frag: Vec<u8>| frag@) + whole_fragments(rest)
            == frags@.map_values(|frag: Vec<u8>| frag@));
    }
    (frags, frag)
}

/// Reads bytes as a pakket.
pub fn read_whole_pakket(bytes: &[u8]) -> (r: Result<TcpPakket, ChatError>)
    ensures
        match r {
            Ok(pakket) => read_whole(bytes@) == Ok::<Seq<char>, Fault>(pakket@),
            Err(e) => read_whole(bytes@) matches Err(fault) && reports(e, fault),
        },
{
    match decode(slice_to_vec(bytes)) {
        Ok(text) => TcpPakket::new_pakked(text.as_str()),
        Err(e) => Err(e),
    }
}

impl Incoming {
    /// A connection of which nothing has been read.
    pub fn new() -> (r: Incoming)
        ensures
            r@ == Seq::<u8>::empty(),
    {
        Incoming { previous_fragment: Vec::with_capacity(INCOMING_BUFFER_LEN) }
    }

    /// Reads the pakkets of a wave. After a fault the reading is over, and what is left over
    /// stays as it was.
    pub fn absorb(&mut self, wave: &[u8]) -> (r: Wave)
        ensures
            texts_of(r.pakkets@) == pakkets_read(old(self)@, wave@),
            match fault_met(old(self)@, wave@) {
                Some(fault) => {
                    &&& r.failure matches Some(e)
                    &&& reports(e, fault)
                    &&& final(self)@ == old(self)@
                },
                None => {
                    &&& r.failure is None
                    &&& final(self)@ == left_over(old(self)@, wave@)
                },
            },
    {
        let mut pakkets: Vec<TcpPakket> = Vec::new();
        if wave.len() == 0 {
            assert(texts_of(pakkets@) == Seq::<Seq<char>>::empty());
            return Wave { pakkets, failure: Some(ChatError::EmptyWave) };
        }
        let mut bytes = slice_to_vec(self.previous_fragment.as_slice());
        let mut fresh = slice_to_vec(wave);
        bytes.append(&mut fresh);
        let (frags, rest) = split_fragments(bytes.as_slice());
        let ghost whole = whole_fragments(self@ + wave@);
        let ghost all = readings(self@ + wave@);
        assert(frags@.map_values(|frag: Vec<u8>| frag@) == whole);
        assert(forall|j: int| 0 <= j < frags.len() ==> #[trigger] frags@[j]@ == frags@.map_values(
            |frag: Vec<u8>| frag@,
        )[j]);
        let mut i: usize = 0;
        while i < frags.len()
            invariant
                i <= frags.len() == whole.len() == all.len(),
                forall|j: int| 0 <= j < frags.len() ==> #[trigger] frags@[j]@ == whole[j],
                wave@.len() > 0,
                *self == *old(self),
                whole == whole_fragments(self@ + wave@),
                all == readings(self@ + wave@),
                pakkets.len() == i,
                forall|j: int|
                    0 <= j < i ==> #[trigger] all[j] == Ok::<Seq<char>, Fault>(pakkets@[j]@),
            decreases frags.len() - i,
        {
            let reading = read_whole_pakket(frags[i].as_slice());
            assert(frags@[i as int]@ == whole[i as int]);
            match reading {
                Ok(pakket) => pakkets.push(pakket),
                Err(e) => {
                    proof {
                        ok_count_is(all, i as nat);
                        assert(texts_of(pakkets@) == pakkets_read(self@, wave@));
                    }
                    return Wave { pakkets, failure: Some(e) };
                },
            }
            i = i + 1;
        }
        proof {
            ok_count_is(all, all.len());
            assert(texts_of(pakkets@) == pakkets_read(self@, wave@));
        }
        self.previous_fragment = rest;
        Wave { pakkets, failure: None }
    }

    /// Takes what came of an attempt to read: the pakkets of a wave are delivered and the
    /// reading goes on, unless there was a fault; it stops at the end of the connection, and
    /// fails when the connection cannot be read.
    pub fn process_reading(&mut self, reading: Reading) -> (r: Step)
        ensures
            match reading {
                Reading::Bytes(wave) => {
                    if wave@.len() == 0 {
                        &&& r.pakkets@.len() == 0
                        &&& r.next is Stop
                        &&& final(self)@ == old(self)@
                    } else {
                        &&& texts_of(r.pakkets@) == pakkets_read(old(self)@, wave@)
                        &&& match fault_met(old(self)@, wave@) {
                            Some(fault) => {
                                &&& r.next matches Next::Fail(e)
                                &&& reports(e, fault)
                                &&& final(self)@ == old(self)@
                            },
                            None => {
                                &&& r.next is Continue
                                &&& final(self)@ == left_over(old(self)@, wave@)
                            },
                        }
                    }
                },
                Reading::Failed => {
                    &&& r.pakkets@.len() == 0
                    &&& r.next == Next::Fail(ChatError::ReaderLeft)
                    &&& final(self)@ == old(self)@
                },
            },
    {
        match reading {
            Reading::Bytes(wave) => {
                if wave.len() == 0 {
                    return Step { pakkets: Vec::new(), next: Next::Stop };
                }
                let wave = self.absorb(wave.as_slice());
                let next = match wave.failure {
                    Some(e) => Next::Fail(e),
                    None => Next::Continue,
                };
                Step { pakkets: wave.pakkets, next }
            },
            Reading::Failed => Step {
                pakkets: Vec::new(),
                next: Next::Fail(ChatError::ReaderLeft),
            },
        }
    }
}

/// The bytes of the pakket that carries a text.
pub open spec fn frame(text: Seq<char>) -> Seq<u8> {
    encode_utf8(crate::pakket::pakked(text))
}

/// The bytes of the pakkets that carry the texts, one after the other.
pub open spec fn frames(texts: Seq<Seq<char>>) -> Seq<u8>
    decreases texts.len(),
{
    if texts.len() == 0 {
        seq![]
    } else {
        frame(texts[0]) + frames(texts.drop_first())
    }
}

/// Whether the text can be told apart from the end of its pakket.
pub open spec fn is_frameable(text: Seq<char>) -> bool {
    !text.contains(TcpPakket::END_DELIMITER as char)
}

/// The pakkets that carry the texts.
pub open spec fn all_pakked(texts: Seq<Seq<char>>) -> Seq<Seq<char>> {
    texts.map_values(|text: Seq<char>| crate::pakket::pakked(text))
}

/// The pakkets that carry the texts, in bytes.
spec fn all_framed(texts: Seq<Seq<char>>) -> Seq<Seq<u8>> {
    texts.map_values(|text: Seq<char>| frame(text))
}

proof fn frame_is_read(text: Seq<char>)
    ensures
        read_whole(frame(text)) == Ok::<Seq<char>, Fault>(crate::pakket::pakked(text)),
{
    let all = crate::pakket::pakked(text);
    encode_utf8_valid_utf8(all);
    encode_utf8_decode_utf8(all);
    crate::pakket::unpacking_undoes_packing(text);
}

proof fn frame_has_one_end(text: Seq<char>)
    requires
        is_frameable(text),
    ensures
        frame(text).len() > 0,
        frame(text).last() == TcpPakket::END_DELIMITER,
        forall|i: int| 0 <= i < frame(text).len() - 1 ==> frame(text)[i] != TcpPakket::END_DELIMITER,
{
    let end = TcpPakket::END_DELIMITER as char;
    let head = seq![TcpPakket::INIT_DELIMITER as char] + text;
    crate::text::concat_holds(seq![TcpPakket::INIT_DELIMITER as char], text, end);
    crate::text::ascii_occurs_in_bytes(head, end);
    crate::text::encode_concat(head, seq![end]);
    crate::text::scalar_bytes(end);
    assert(seq![end].drop_first() == Seq::<char>::empty());
    assert(encode_utf8(seq![end]) == encode_scalar(end as u32) + encode_utf8(Seq::<char>::empty()));
    assert(encode_utf8(seq![end]) == seq![TcpPakket::END_DELIMITER]);
    assert(crate::pakket::pakked(text) == head + seq![end]);
    assert forall|i: int| 0 <= i < frame(text).len() - 1 implies frame(text)[i]
        != TcpPakket::END_DELIMITER by {
        assert(encode_utf8(head).contains(encode_utf8(head)[i]));
    }
}

proof fn whole_fragments_of_frames(texts: Seq<Seq<char>>, tail: Seq<u8>)
    requires
        forall|i: int| 0 <= i < texts.len() ==> is_frameable(#[trigger] texts[i]),
        !tail.contains(TcpPakket::END_DELIMITER),
    ensures
        whole_fragments(frames(texts) + tail) == all_framed(texts),
        remainder(frames(texts) + tail) == tail,
    decreases texts.len(),
{
    let bytes = frames(texts) + tail;
    if texts.len() == 0 {
        assert(bytes == tail);
        no_end(tail);
        assert(all_framed(texts) == Seq::<Seq<u8>>::empty());
    } else {
        let one = frame(texts[0]);
        let others = texts.drop_first();
        assert forall|i: int| 0 <= i < others.len() implies is_frameable(#[trigger] others[i]) by {
            assert(is_frameable(texts[i + 1]));
        }
        whole_fragments_of_frames(others, tail);
        frame_has_one_end(texts[0]);
        assert(bytes == one + (frames(others) + tail));
        assert forall|j: int| 0 <= j < one.len() - 1 implies bytes[j] != TcpPakket::END_DELIMITER by {
            assert(bytes[j] == one[j]);
        }
        first_end_is(bytes, one.len() - 1);
        remainder_behind(bytes, one.len() as int);
        assert(bytes.take(one.len() as int) == one);
        assert(bytes.skip(one.len() as int) == frames(others) + tail);
        assert(all_framed(texts) == seq![one] + all_framed(others));
    }
}

proof fn frames_are_read(texts: Seq<Seq<char>>, tail: Seq<u8>)
    requires
        forall|i: int| 0 <= i < texts.len() ==> is_frameable(#[trigger] texts[i]),
        !tail.contains(TcpPakket::END_DELIMITER),
    ensures
        before_fault(readings(frames(texts) + tail)) == all_pakked(texts),
        first_fault(readings(frames(texts) + tail)) is None,
{
    let all = readings(frames(texts) + tail);
    whole_fragments_of_frames(texts, tail);
    assert forall|i: int| 0 <= i < texts.len() implies (#[trigger] all[i]) == Ok::<Seq<char>, Fault>(
        crate::pakket::pakked(texts[i]),
    ) by {
        frame_is_read(texts[i]);
        assert(all_framed(texts)[i] == frame(texts[i]));
    }
    ok_count_is(all, all.len());
    assert(before_fault(all) == all_pakked(texts));
}

/// The pakkets that the waves bring, one wave after the other, up to the first fault, when
/// `previous` was left over before them.
pub open spec fn pakkets_of_waves(previous: Seq<u8>, waves: Seq<Seq<u8>>) -> Seq<Seq<char>>
    decreases waves.len(),
{
    if waves.len() == 0 {
        seq![]
    } else if fault_met(previous, waves[0]) is Some {
        pakkets_read(previous, waves[0])
    } else {
        pakkets_read(previous, waves[0]) + pakkets_of_waves(
            left_over(previous, waves[0]),
            waves.drop_first(),
        )
    }
}

/// The first fault of the waves, when `previous` was left over before them.
pub open spec fn fault_of_waves(previous: Seq<u8>, waves: Seq<Seq<u8>>) -> Option<Fault>
    decreases waves.len(),
{
    if waves.len() == 0 {
        None
    } else if fault_met(previous, waves[0]) is Some {
        fault_met(previous, waves[0])
    } else {
        fault_of_waves(left_over(previous, waves[0]), waves.drop_first())
    }
}

/// What is left over after waves without a fault, when `previous` was left over before them.
pub open spec fn left_of_waves(previous: Seq<u8>, waves: Seq<Seq<u8>>) -> Seq<u8>
    decreases waves.len(),
{
    if waves.len() == 0 {
        previous
    } else {
        left_of_waves(left_over(previous, waves[0]), waves.drop_first())
    }
}

/// How a stream is cut into waves makes no difference: the waves bring the pakkets that the
/// whole stream brings at once, meet the fault that it meets, and leave over what it leaves
/// over.
pub proof fn cutting_makes_no_difference(previous: Seq<u8>, waves: Seq<Seq<u8>>)
    requires
        waves.len() > 0,
        forall|i: int| 0 <= i < waves.len() ==> (#[trigger] waves[i]).len() > 0,
    ensures
        pakkets_of_waves(previous, waves) == pakkets_read(previous, waves.flatten()),
        fault_of_waves(previous, waves) == fault_met(previous, waves.flatten()),
        left_of_waves(previous, waves) == left_over(previous, waves.flatten()),
    decreases waves.len(),
{
    let wave = waves[0];
    let others = waves.drop_first();
    let left = left_over(previous, wave);
    let stream = waves.flatten();
    assert(waves.first() == wave);
    assert(stream == wave + others.flatten());
    assert(wave.len() > 0);
    if others.len() == 0 {
        assert(others.flatten() == Seq::<u8>::empty());
        assert(stream == wave);
        assert(left_of_waves(left, others) == left);
        assert(pakkets_of_waves(left, others) == Seq::<Seq<char>>::empty());
        assert(pakkets_read(previous, wave) + pakkets_of_waves(left, others) == pakkets_read(
            previous,
            wave,
        ));
    } else {
        assert forall|i: int| 0 <= i < others.len() implies (#[trigger] others[i]).len() > 0 by {
            assert(waves[i + 1].len() > 0);
        }
        cutting_makes_no_difference(left, others);
        let behind = others.flatten();
        assert(behind.len() > 0) by {
            assert(others.first() == others[0]);
            assert(behind == others[0] + others.drop_first().flatten());
        }
        assert(previous + stream == (previous + wave) + behind);
        cut_bytes(previous + wave, behind);
        assert(readings(previous + stream) == readings(previous + wave) + readings(left + behind));
        cut_readings(readings(previous + wave), readings(left + behind));
    }
}

/// Pakkets that arrive one after the other are all read, in order and without a fault, however
/// their bytes are cut into waves: inside a pakket, inside a character, or anywhere else. The
/// bytes of a further pakket that is not complete yet are left over.
pub proof fn begun_stream_is_read(waves: Seq<Seq<u8>>, texts: Seq<Seq<char>>, tail: Seq<u8>)
    requires
        forall|i: int| 0 <= i < waves.len() ==> (#[trigger] waves[i]).len() > 0,
        forall|i: int| 0 <= i < texts.len() ==> is_frameable(#[trigger] texts[i]),
        !tail.contains(TcpPakket::END_DELIMITER),
        waves.flatten() == frames(texts) + tail,
    ensures
        fault_of_waves(Seq::empty(), waves) is None,
        pakkets_of_waves(Seq::empty(), waves) == all_pakked(texts),
        left_of_waves(Seq::empty(), waves) == tail,
{
    let nothing = Seq::<u8>::empty();
    let stream = frames(texts) + tail;
    assert(nothing + stream == stream);
    frames_are_read(texts, tail);
    whole_fragments_of_frames(texts, tail);
    if waves.len() == 0 {
        assert(waves.flatten() == nothing);
        if texts.len() > 0 {
            frame_has_one_end(texts[0]);
            assert(stream.len() >= frame(texts[0]).len());
        }
        assert(all_pakked(texts) == Seq::<Seq<char>>::empty());
    } else {
        cutting_makes_no_difference(nothing, waves);
        assert(stream.len() > 0) by {
            assert(waves.first() == waves[0]);
            assert(waves[0].len() > 0);
            assert(waves.flatten() == waves[0] + waves.drop_first().flatten());
        }
    }
}

/// Of waves that together are whole pakkets, none has a fault, and the pakkets of all waves, in
/// order, are those that were sent.
pub proof fn stream_of_pakkets_is_read(waves: Seq<Seq<u8>>, texts: Seq<Seq<char>>)
    requires
        forall|i: int| 0 <= i < waves.len() ==> (#[trigger] waves[i]).len() > 0,
        forall|i: int| 0 <= i < texts.len() ==> is_frameable(#[trigger] texts[i]),
        waves.flatten() == frames(texts),
    ensures
        fault_of_waves(Seq::empty(), waves) is None,
        pakkets_of_waves(Seq::empty(), waves) == all_pakked(texts),
        left_of_waves(Seq::empty(), waves) == Seq::<u8>::empty(),
{
    let tail = Seq::<u8>::empty();
    assert(frames(texts) + tail == frames(texts));
    begun_stream_is_read(waves, texts, tail);
}

/// The JSON of the messages.
pub open spec fn all_json(messages: Seq<MessageView>) -> Seq<Seq<char>> {
    messages.map_values(|m: MessageView| crate::json::json_message(m.username, m.content))
}

/// Messages whose usernames and contents are free of the end delimiter arrive: of the pakkets
/// that carry their JSON, however they are cut into waves, each is read, in order, and unpacks
/// to JSON that is of that message and of no other.
pub proof fn sent_messages_arrive(
    waves: Seq<Seq<u8>>,
    messages: Seq<MessageView>,
    other: MessageView,
    i: int,
)
    requires
        forall|k: int| 0 <= k < waves.len() ==> (#[trigger] waves[k]).len() > 0,
        forall|k: int|
            0 <= k < messages.len() ==> is_frameable((#[trigger] messages[k]).username) && is_frameable(
                messages[k].content,
            ),
        waves.flatten() == frames(all_json(messages)),
        0 <= i < messages.len(),
    ensures
        fault_of_waves(Seq::empty(), waves) is None,
        pakkets_of_waves(Seq::empty(), waves).len() == messages.len(),
        crate::pakket::unpacked(pakkets_of_waves(Seq::empty(), waves)[i])
            == crate::json::json_message(messages[i].username, messages[i].content),
        crate::pakket::unpacked(pakkets_of_waves(Seq::empty(), waves)[i])
            == crate::json::json_message(other.username, other.content) ==> other == messages[i],
{
    let texts = all_json(messages);
    assert forall|k: int| 0 <= k < texts.len() implies is_frameable(#[trigger] texts[k]) by {
        assert(is_frameable(messages[k].username));
        crate::json::json_holds_delimiter_of_message(messages[k].username, messages[k].content, '`');
    }
    stream_of_pakkets_is_read(waves, texts);
    crate::pakket::unpacking_undoes_packing(texts[i]);
    if texts[i] == crate::json::json_message(other.username, other.content) {
        crate::json::json_determines_message(
            messages[i].username,
            messages[i].content,
            other.username,
            other.content,
        );
    }
}

/// The pakket of a message that was not refused fits into the buffer.
pub proof fn pakket_of_message_fits_buffer(username: Seq<char>, content: Seq<char>)
    requires
        crate::message::refusal(username, content) is None,
    ensures
        frame(crate::json::json_message(username, content)).len() <= INCOMING_BUFFER_LEN,
{
    let json = crate::json::json_message(username, content);
    let init = seq![TcpPakket::INIT_DELIMITER as char];
    let end = seq![TcpPakket::END_DELIMITER as char];
    crate::json::json_is_bounded(username, content);
    assert(is_ascii_chars(init));
    assert(is_ascii_chars(end));
    is_ascii_chars_encode_utf8(init);
    is_ascii_chars_encode_utf8(end);
    crate::text::encode_concat(init, json);
    crate::text::encode_concat(init + json, end);
}

/// Cutting loses nothing and moves nothing: the whole fragments, one after the other, and what
/// stands behind them are the bytes. A whole fragment ends in a backtick and holds no other, and
/// what stands behind them holds none.
pub proof fn cutting_loses_nothing(bytes: Seq<u8>)
    ensures
        whole_fragments(bytes).flatten() + remainder(bytes) == bytes,
        forall|i: int|
            0 <= i < whole_fragments(bytes).len() ==> {
                let frag = #[trigger] whole_fragments(bytes)[i];
                &&& frag.len() > 0
                &&& frag.last() == 0x60
                &&& !frag.drop_last().contains(0x60)
            },
        !remainder(bytes).contains(0x60),
    decreases bytes.len(),
{
    bytes.index_of_first_ensures(TcpPakket::END_DELIMITER);
    match bytes.index_of_first(TcpPakket::END_DELIMITER) {
        Some(i) => {
            let one = bytes.take(i + 1);
            let rest = bytes.skip(i + 1);
            let frags = whole_fragments(rest);
            let all = whole_fragments(bytes);
            cutting_loses_nothing(rest);
            remainder_behind(bytes, i + 1);
            assert(all == seq![one] + frags);
            assert(all.first() == one);
            assert(all.drop_first() == frags);
            assert(all.flatten() == one + frags.flatten());
            assert(bytes == one + rest);
            assert(all.flatten() + remainder(bytes) == one + (frags.flatten() + remainder(rest)));
            assert forall|k: int| 0 <= k < all.len() implies {
                let frag = #[trigger] all[k];
                &&& frag.len() > 0
                &&& frag.last() == 0x60
                &&& !frag.drop_last().contains(0x60)
            } by {
                if k > 0 {
                    assert(all[k] == frags[k - 1]);
                }
            }
        },
        None => {
            no_end(bytes);
            assert(whole_fragments(bytes).flatten() == Seq::<u8>::empty());
            assert(Seq::<u8>::empty() + bytes == bytes);
        },
    }
}

/// There is only one such way to cut: pieces that each end in a backtick and hold no other, with
/// a rest behind them that holds none, are the whole fragments of what they make together.
pub proof fn cutting_is_unique(frags: Seq<Seq<u8>>, rest: Seq<u8>)
    requires
        forall|i: int|
            0 <= i < frags.len() ==> {
                &&& (#[trigger] frags[i]).len() > 0
                &&& frags[i].last() == 0x60
                &&& !frags[i].drop_last().contains(0x60)
            },
        !rest.contains(0x60),
    ensures
        whole_fragments(frags.flatten() + rest) == frags,
        remainder(frags.flatten() + rest) == rest,
    decreases frags.len(),
{
    let bytes = frags.flatten() + rest;
    if frags.len() == 0 {
        assert(bytes == rest);
        no_end(rest);
    } else {
        let one = frags[0];
        let others = frags.drop_first();
        assert(frags.first() == one);
        assert(frags.flatten() == one + others.flatten());
        assert forall|i: int| 0 <= i < others.len() implies {
            &&& (#[trigger] others[i]).len() > 0
            &&& others[i].last() == 0x60
            &&& !others[i].drop_last().contains(0x60)
        } by {
            assert(others[i] == frags[i + 1]);
        }
        cutting_is_unique(others, rest);
        assert(bytes == one + (others.flatten() + rest));
        assert forall|j: int| 0 <= j < one.len() - 1 implies bytes[j] != TcpPakket::END_DELIMITER by {
            assert(one.drop_last()[j] == bytes[j]);
            assert(one.drop_last().contains(one.drop_last()[j]));
        }
        assert(bytes[one.len() - 1] == one.last());
        first_end_is(bytes, one.len() - 1);
        remainder_behind(bytes, one.len() as int);
        assert(bytes.take(one.len() as int) == one);
        assert(bytes.skip(one.len() as int) == others.flatten() + rest);
        assert(frags == seq![one] + others);
    }
}

proof fn ends_of_text(text: Seq<char>)
    requires
        text.len() > 0,
    ensures
        encode_utf8(text).len() > 0,
        text[0] == '|' <==> encode_utf8(text)[0] == 0x7c,
        text.last() == '`' <==> encode_utf8(text).last() == 0x60,
        encode_utf8(text).last() == 0x60 ==> encode_utf8(text).drop_last() == encode_utf8(
            text.drop_last(),
        ),
{
    let bytes = encode_utf8(text);
    let first = encode_scalar(text[0] as u32);
    let last = encode_scalar(text.last() as u32);
    crate::text::scalar_bytes(text[0]);
    crate::text::scalar_bytes(text.last());
    assert(bytes == first + encode_utf8(text.drop_first()));
    let one = seq![text.last()];
    assert(one.drop_first() == Seq::<char>::empty());
    assert(encode_utf8(one) == last + encode_utf8(Seq::<char>::empty()));
    assert(encode_utf8(one) == last);
    assert(text == text.drop_last() + one);
    crate::text::encode_concat(text.drop_last(), one);
    assert(bytes[0] == encode_scalar(text[0] as u32)[0]);
    assert(bytes.last() == encode_scalar(text.last() as u32)[last.len() - 1]);
    if bytes[0] == 0x7c {
        ascii_of_byte(text[0], '|');
    }
    if bytes.last() == 0x60 {
        ascii_of_byte(text.last(), '`');
        assert(bytes.drop_last() == encode_utf8(text.drop_last()));
    }
}

proof fn ascii_of_byte(c: char, d: char)
    requires
        d <= '\u{7f}',
        encode_scalar(c as u32)[0] == d as u8 || encode_scalar(c as u32).last() == d as u8,
    ensures
        c == d,
{
    crate::text::scalar_bytes(c);
    if c > '\u{7f}' {
        assert(encode_scalar(c as u32)[0] >= 0x80);
        assert(encode_scalar(c as u32)[encode_scalar(c as u32).len() - 1] >= 0x80);
    } else {
        crate::text::ascii_byte_determines_char(c, d);
    }
}

/// A fragment is read exactly when it is UTF-8 and begins with a bar and ends with a backtick.
/// The text that is read then has the bytes of the fragment.
pub proof fn fragment_is_read_as_it_is(frag: Seq<u8>)
    ensures
        match read_whole(frag) {
            Ok(text) => {
                &&& encode_utf8(text) == frag
                &&& frag.len() >= 2
                &&& frag[0] == 0x7c
                &&& frag.last() == 0x60
                &&& text.len() >= 2
                &&& text[0] == '|'
                &&& text.last() == '`'
            },
            Err(fault) => {
                ||| fault == Fault::NotUtf8(frag) && !valid_utf8(frag)
                ||| fault == Fault::WrongDelimiters && valid_utf8(frag) && !(frag.len() >= 2
                    && frag[0] == 0x7c && frag.last() == 0x60)
            },
        },
{
    if valid_utf8(frag) {
        let text = decode_utf8(frag);
        decode_utf8_encode_utf8(frag);
        if text.len() > 0 {
            ends_of_text(text);
            if text.len() >= 2 {
                crate::text::encode_concat(text.take(1), text.skip(1));
                assert(text == text.take(1) + text.skip(1));
                ends_of_text(text.take(1));
                ends_of_text(text.skip(1));
            } else if frag.len() >= 2 && frag[0] == 0x7c && frag.last() == 0x60 {
                assert(text[0] == text.last());
            }
        } else {
            assert(encode_utf8(text).len() == 0);
        }
    }
}

proof fn flattened_split(frags: Seq<Seq<u8>>, n: int)
    requires
        0 <= n <= frags.len(),
    ensures
        frags.flatten() == frags.take(n).flatten() + frags.skip(n).flatten(),
{
    assert(frags == frags.take(n) + frags.skip(n));
    vstd::seq_lib::lemma_flatten_concat(frags.take(n), frags.skip(n));
}

/// What is read of a wave loses nothing and moves nothing. The bytes of the pakkets, one after
/// the other, and what is left over are what was left over before and the wave. Where there is a
/// fault, the first fragment that cannot be read stands behind the pakkets that were read. Each
/// pakket begins with a bar and ends in a backtick, and holds no other backtick.
pub proof fn reading_loses_nothing(previous: Seq<u8>, wave: Seq<u8>)
    requires
        wave.len() > 0,
    ensures
        ({
            let read = pakkets_read(previous, wave);
            let bytes = read.map_values(|text: Seq<char>| encode_utf8(text)).flatten();
            match fault_met(previous, wave) {
                None => bytes + left_over(previous, wave) == previous + wave,
                Some(fault) => exists|bad: Seq<u8>, rest: Seq<u8>|
                    {
                        &&& #[trigger] (bytes + bad + rest) == previous + wave
                        &&& bad.len() > 0
                        &&& bad.last() == 0x60
                        &&& !bad.drop_last().contains(0x60)
                        &&& match fault {
                            Fault::EmptyWave => false,
                            Fault::NotUtf8(b) => b == bad && !valid_utf8(bad),
                            Fault::WrongDelimiters => valid_utf8(bad) && bad[0] != 0x7c,
                        }
                    },
            }
        }),
        !left_over(previous, wave).contains(0x60),
        forall|i: int|
            0 <= i < pakkets_read(previous, wave).len() ==> {
                let text = #[trigger] pakkets_read(previous, wave)[i];
                &&& text.len() >= 2
                &&& text[0] == '|'
                &&& text.last() == '`'
                &&& !text.drop_last().contains('`')
            },
{
    let stream = previous + wave;
    let frags = whole_fragments(stream);
    let all = readings(stream);
    let read = pakkets_read(previous, wave);
    let parts = read.map_values(|text: Seq<char>| encode_utf8(text));
    let n = ok_count(all) as int;
    ok_count_bounds(all);
    cutting_loses_nothing(stream);
    assert(all.len() == frags.len());
    assert forall|i: int| 0 <= i < n implies {
        let text = #[trigger] read[i];
        &&& text.len() >= 2
        &&& text[0] == '|'
        &&& text.last() == '`'
        &&& !text.drop_last().contains('`')
        &&& encode_utf8(text) == frags[i]
    } by {
        let text = read[i];
        let frag = frags[i];
        assert(all[i] is Ok);
        assert(all[i] == read_whole(frag));
        fragment_is_read_as_it_is(frag);
        ends_of_text(text);
        crate::text::ascii_occurs_in_bytes(text.drop_last(), '`');
        assert(!frag.drop_last().contains(0x60));
    }
    assert(parts == frags.take(n));
    flattened_split(frags, n);
    if n < frags.len() {
        let bad = frags[n];
        let behind = frags.skip(n);
        let rest = behind.drop_first().flatten() + remainder(stream);
        assert(behind.first() == bad);
        assert(behind.flatten() == bad + behind.drop_first().flatten());
        assert(all[n] == read_whole(bad));
        fragment_is_read_as_it_is(bad);
        assert(parts.flatten() + bad + rest == stream);
        if valid_utf8(bad) && bad[0] == 0x7c {
            assert(bad.len() == 1 ==> bad[0] == bad.last());
        }
    } else {
        assert(frags.skip(n) == Seq::<Seq<u8>>::empty());
        assert(frags.skip(n).flatten() == Seq::<u8>::empty());
        assert(frags.take(n) == frags);
        assert(parts.flatten() + left_over(previous, wave) == stream);
    }
}

/// A wave without bytes brings nothing and is a fault.
pub proof fn empty_wave_is_a_fault(previous: Seq<u8>)
    ensures
        pakkets_read(previous, Seq::empty()).len() == 0,
        fault_met(previous, Seq::empty()) == Some(Fault::EmptyWave),
{
}

/// The error tells which fault was met.
pub proof fn error_tells_the_fault(e: ChatError, bytes: Seq<u8>)
    ensures
        reports(e, Fault::EmptyWave) <==> e == ChatError::EmptyWave,
        reports(e, Fault::WrongDelimiters) <==> e == ChatError::WrongDelimiters,
        reports(e, Fault::NotUtf8(bytes)) <==> {
            &&& e matches ChatError::NotUtf8(reason)
            &&& reason@ == crate::text::complaint(bytes)
        },
{
}

/// The texts of pakkets are those of each, in order.
pub proof fn texts_are_in_order(pakkets: Seq<TcpPakket>)
    ensures
        texts_of(pakkets).len() == pakkets.len(),
        forall|i: int| 0 <= i < pakkets.len() ==> #[trigger] texts_of(pakkets)[i] == pakkets[i]@,
{
}

/// The bytes of a pakket that carries a text: a bar, the bytes of the text, and a backtick; and
/// of several, those of each, in order.
pub proof fn frames_hold_the_texts(text: Seq<char>, texts: Seq<Seq<char>>)
    ensures
        frame(text) == seq![0x7cu8] + encode_utf8(text) + seq![0x60u8],
        frames(texts) == texts.map_values(|t: Seq<char>| frame(t)).flatten(),
        is_frameable(text) <==> !text.contains('`'),
        all_pakked(texts).len() == texts.len(),
        forall|i: int|
            0 <= i < texts.len() ==> #[trigger] all_pakked(texts)[i] == crate::pakket::pakked(texts[i]),
    decreases texts.len(),
{
    let init = seq!['|'];
    let end = seq!['`'];
    assert(is_ascii_chars(init));
    assert(is_ascii_chars(end));
    is_ascii_chars_encode_utf8(init);
    is_ascii_chars_encode_utf8(end);
    assert(encode_utf8(init) == seq![0x7cu8]);
    assert(encode_utf8(end) == seq![0x60u8]);
    crate::text::encode_concat(init, text);
    crate::text::encode_concat(init + text, end);
    if texts.len() > 0 {
        let others = texts.drop_first();
        frames_hold_the_texts(text, others);
        let all = texts.map_values(|t: Seq<char>| frame(t));
        assert(all.first() == frame(texts[0]));
        assert(all.drop_first() == others.map_values(|t: Seq<char>| frame(t)));
    }
}

/// The buffer takes in 11640 bytes at once: ten times the longest username and content, and 200
/// bytes more.
pub proof fn size_of_the_buffer()
    ensures
        INCOMING_BUFFER_LEN == 11640,
        Message::MAX_USERNAME_LEN == 120,
        Message::MAX_CONTENT_LEN == 1024,
{
}

} // verus!

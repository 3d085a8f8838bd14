//! The output streaming bridge: turning a child's raw output bytes into
//! discrete line events.
//!
//! The embedding program owns the blocking reads; each chunk of bytes it
//! obtains is pushed into a [`Bridge`], which buffers the unfinished line and
//! hands back one [`ChunkPayload`] per completed line, in the order the child
//! wrote them. At end of stream, [`Bridge::finish`] delivers the final
//! unterminated chunk rather than dropping it. Bytes that are not valid text
//! are substituted, never fatal: a child is not required to emit valid UTF-8.

use vstd::prelude::*;
use vstd::utf8::*;

use crate::event::ChunkPayload;

verus! {

/// The byte that terminates a line.
pub const LINE_END: u8 = 10;

/// The unfinished tail of a byte stream: everything after its last line
/// terminator (the whole stream when it has none).
pub open spec fn rest_of(s: Seq<u8>) -> Seq<u8>
    decreases s.len(),
{
    if s.len() == 0 {
        Seq::empty()
    } else if s.last() == LINE_END {
        Seq::empty()
    } else {
        rest_of(s.drop_last()).push(s.last())
    }
}

/// The completed lines of a byte stream, in stream order, without their
/// terminators.
pub open spec fn lines_of(s: Seq<u8>) -> Seq<Seq<u8>>
    decreases s.len(),
{
    if s.len() == 0 {
        Seq::empty()
    } else if s.last() == LINE_END {
        lines_of(s.drop_last()).push(rest_of(s.drop_last()))
    } else {
        lines_of(s.drop_last())
    }
}

/// What `String::from_utf8_lossy` makes of a byte sequence. The decoding is a
/// function of the bytes alone; only its exact value on invalid input is left
/// unstated here.
pub uninterp spec fn lossy_decode(bytes: Seq<u8>) -> Seq<char>;

/// Relies on `String::from_utf8_lossy`: valid UTF-8 input decodes exactly;
/// invalid sequences are replaced with the replacement character instead of
/// failing.
#[verifier::external_body]
fn decode_lossy(bytes: &[u8]) -> (r: String)
    ensures
        r@ == lossy_decode(bytes@),
        valid_utf8(bytes@) ==> r@ == decode_utf8(bytes@),
        !valid_utf8(bytes@) ==> r@.contains('\u{FFFD}'),
{
    String::from_utf8_lossy(bytes).into_owned()
}

/// The per-process task state that translates one child's raw output stream
/// into line events tagged with that child's name.
pub struct Bridge {
    name: String,
    buf: Vec<u8>,
}

impl Bridge {
    /// The name whose process this bridge reads; every event it emits is
    /// tagged with it.
    pub closed spec fn source_name(&self) -> Seq<char> {
        self.name@
    }

    /// The bytes of the line currently under assembly.
    pub closed spec fn pending(&self) -> Seq<u8> {
        self.buf@
    }

    /// A buffered line is by construction unfinished: it never holds a line
    /// terminator.
    pub open spec fn wf(&self) -> bool {
        !self.pending().contains(LINE_END)
    }

    /// A bridge for a freshly started process: nothing buffered yet.
    pub fn new(name: String) -> (r: Bridge)
        ensures
            r.wf(),
            r.source_name() == name@,
            r.pending() == Seq::<u8>::empty(),
    {
        Bridge { name, buf: Vec::new() }
    }

    /// Feeds the next chunk of raw output into the bridge. Returns one event
    /// per line completed by these bytes, in the order the child wrote them,
    /// each tagged with this bridge's name; the unterminated tail stays
    /// buffered for the next call.
    pub fn push_bytes(&mut self, bytes: &[u8]) -> (events: Vec<ChunkPayload>)
        requires
            old(self).wf(),
        ensures
            final(self).wf(),
            final(self).source_name() == old(self).source_name(),
            ({
                let stream = old(self).pending() + bytes@;
                &&& final(self).pending() == rest_of(stream)
                &&& events@.len() == lines_of(stream).len()
                &&& forall|j: int|
                    0 <= j < events@.len() ==> {
                        let line = lines_of(stream)[j];
                        &&& (#[trigger] events@[j]).name@ == old(self).source_name()
                        &&& events@[j].chunk@ == lossy_decode(line)
                        &&& (valid_utf8(line) ==> events@[j].chunk@ == decode_utf8(line))
                    }
            }),
    {
        let ghost pend0 = self.buf@;
        let ghost name0 = self.name@;
        proof {
            lemma_no_line_end(pend0);
            assert(pend0 + bytes@.subrange(0, 0) =~= pend0);
        }
        let mut events: Vec<ChunkPayload> = Vec::new();
        let n = bytes.len();
        for k in 0..n
            invariant
                n == bytes@.len(),
                self.name@ == name0,
                ({
                    let stream = pend0 + bytes@.subrange(0, k as int);
                    &&& self.buf@ == rest_of(stream)
                    &&& events@.len() == lines_of(stream).len()
                    &&& forall|j: int|
                        0 <= j < events@.len() ==> {
                            let line = lines_of(stream)[j];
                            &&& (#[trigger] events@[j]).name@ == name0
                            &&& events@[j].chunk@ == lossy_decode(line)
                            &&& (valid_utf8(line) ==> events@[j].chunk@ == decode_utf8(line))
                        }
                }),
        {
            let ghost stream = pend0 + bytes@.subrange(0, k as int);
            let ghost stream_next = pend0 + bytes@.subrange(0, k as int + 1);
            proof {
                assert(stream_next =~= stream.push(bytes@[k as int]));
                assert(stream_next.drop_last() =~= stream);
            }
            let b = bytes[k];
            if b == LINE_END {
                let mut taken: Vec<u8> = Vec::new();
                core::mem::swap(&mut self.buf, &mut taken);
                let chunk = decode_lossy(taken.as_slice());
                events.push(ChunkPayload { name: self.name.clone(), chunk });
            } else {
                self.buf.push(b);
            }
        }
        proof {
            assert(bytes@.subrange(0, n as int) =~= bytes@);
            lemma_rest_no_line_end(old(self).pending() + bytes@);
        }
        events
    }

    /// Reports end of stream. A final unterminated chunk is still delivered,
    /// not dropped; afterwards nothing stays buffered.
    pub fn finish(&mut self) -> (r: Option<ChunkPayload>)
        ensures
            final(self).wf(),
            final(self).source_name() == old(self).source_name(),
            final(self).pending() == Seq::<u8>::empty(),
            old(self).pending().len() == 0 ==> r is None,
            old(self).pending().len() > 0 ==> {
                &&& r is Some
                &&& r->0.name@ == old(self).source_name()
                &&& r->0.chunk@ == lossy_decode(old(self).pending())
                &&& (valid_utf8(old(self).pending()) ==> r->0.chunk@ == decode_utf8(
                    old(self).pending(),
                ))
            },
    {
        if self.buf.is_empty() {
            None
        } else {
            let mut taken: Vec<u8> = Vec::new();
            core::mem::swap(&mut self.buf, &mut taken);
            let chunk = decode_lossy(taken.as_slice());
            Some(ChunkPayload { name: self.name.clone(), chunk })
        }
    }
}

/// A stream without a line terminator has completed no line: everything is
/// still the unfinished tail.
pub proof fn lemma_no_line_end(s: Seq<u8>)
    requires
        !s.contains(LINE_END),
    ensures
        lines_of(s) == Seq::<Seq<u8>>::empty(),
        rest_of(s) == s,
    decreases s.len(),
{
    if s.len() > 0 {
        assert(s.last() != LINE_END);
        assert(!s.drop_last().contains(LINE_END)) by {
            if s.drop_last().contains(LINE_END) {
                let i = choose|i: int|
                    0 <= i < s.drop_last().len() && s.drop_last()[i] == LINE_END;
                assert(s[i] == LINE_END);
            }
        }
        lemma_no_line_end(s.drop_last());
        assert(rest_of(s) =~= s);
    }
}

/// The unfinished tail of a stream never holds a line terminator.
pub proof fn lemma_rest_no_line_end(s: Seq<u8>)
    ensures
        !rest_of(s).contains(LINE_END),
    decreases s.len(),
{
    if s.len() > 0 && s.last() != LINE_END {
        lemma_rest_no_line_end(s.drop_last());
        let r = rest_of(s.drop_last()).push(s.last());
        assert(!r.contains(LINE_END)) by {
            if r.contains(LINE_END) {
                let i = choose|i: int| 0 <= i < r.len() && r[i] == LINE_END;
                if i < r.len() - 1 {
                    assert(rest_of(s.drop_last())[i] == LINE_END);
                    assert(rest_of(s.drop_last()).contains(LINE_END));
                }
            }
        }
    }
}

/// The UTF-8 encoding of a scalar other than the line terminator never
/// contains the line terminator byte.
proof fn lemma_encode_scalar_no_line_end(scalar: u32)
    requires
        is_scalar(scalar),
        scalar != 10,
    ensures
        forall|j: int|
            0 <= j < encode_scalar(scalar).len() ==> #[trigger] encode_scalar(scalar)[j]
                != LINE_END,
{
    if has_width_1_encoding(scalar) {
        assert(leading_byte_width_1(scalar) != 10) by (bit_vector)
            requires
                scalar <= 0x7F,
                scalar != 10,
        ;
    } else {
        assert(leading_byte_width_2(scalar) != 10) by (bit_vector);
        assert(leading_byte_width_3(scalar) != 10) by (bit_vector);
        assert(leading_byte_width_4(scalar) != 10) by (bit_vector);
        assert(last_continuation_byte(scalar) != 10) by (bit_vector);
        assert(second_last_continuation_byte(scalar) != 10) by (bit_vector);
        assert(third_last_continuation_byte(scalar) != 10) by (bit_vector);
    }
}

/// The UTF-8 encoding of a message without a newline character contains no
/// line terminator byte.
pub proof fn lemma_encode_no_line_end(msg: Seq<char>)
    requires
        !msg.contains('\n'),
    ensures
        !encode_utf8(msg).contains(LINE_END),
    decreases msg.len(),
{
    if msg.len() > 0 {
        assert(msg[0] != '\n') by {
            if msg[0] == '\n' {
                assert(msg.contains('\n'));
            }
        }
        char_is_scalar(msg[0]);
        assert(msg[0] as u32 != 10) by {
            if msg[0] as u32 == 10 {
                char_u32_cast(msg[0], msg[0] as u32);
                char_u32_cast('\n', '\n' as u32);
                assert('\n' as u32 == 10);
            }
        }
        lemma_encode_scalar_no_line_end(msg[0] as u32);
        assert(!msg.drop_first().contains('\n')) by {
            if msg.drop_first().contains('\n') {
                let i = choose|i: int|
                    0 <= i < msg.drop_first().len() && msg.drop_first()[i] == '\n';
                assert(msg[i + 1] == '\n');
            }
        }
        lemma_encode_no_line_end(msg.drop_first());
        let head = encode_scalar(msg[0] as u32);
        let tail = encode_utf8(msg.drop_first());
        assert(!(head + tail).contains(LINE_END)) by {
            if (head + tail).contains(LINE_END) {
                let i = choose|i: int| 0 <= i < (head + tail).len() && (head + tail)[i] == LINE_END;
                if i >= head.len() {
                    assert(tail[i - head.len()] == LINE_END);
                    assert(tail.contains(LINE_END));
                }
            }
        }
    }
}

/// Line events do not depend on how reads chunk the stream: feeding `a` and
/// then `b` into a bridge (whose buffer then holds `rest_of(a)`) completes
/// exactly the lines of `a + b`, in stream order, and buffers its tail. Lines
/// within one process therefore come out strictly in the order the child
/// wrote them, however the bytes arrived.
pub proof fn lemma_stream_composition(a: Seq<u8>, b: Seq<u8>)
    ensures
        lines_of(a + b) == lines_of(a) + lines_of(rest_of(a) + b),
        rest_of(a + b) == rest_of(rest_of(a) + b),
    decreases b.len(),
{
    if b.len() == 0 {
        assert(a + b =~= a);
        assert(rest_of(a) + b =~= rest_of(a));
        lemma_rest_no_line_end(a);
        lemma_no_line_end(rest_of(a));
        assert(lines_of(a) + Seq::<Seq<u8>>::empty() =~= lines_of(a));
    } else {
        lemma_stream_composition(a, b.drop_last());
        assert((a + b).drop_last() =~= a + b.drop_last());
        assert((rest_of(a) + b).drop_last() =~= rest_of(a) + b.drop_last());
        assert((a + b).last() == b.last());
        assert((rest_of(a) + b).last() == b.last());
        if b.last() == LINE_END {
            assert((lines_of(a) + lines_of(rest_of(a) + b.drop_last())).push(
                rest_of(rest_of(a) + b.drop_last()),
            ) =~= lines_of(a) + lines_of(rest_of(a) + b.drop_last()).push(
                rest_of(rest_of(a) + b.drop_last()),
            ));
        }
    }
}

/// The echo round trip: a message without a newline, encoded and terminated
/// exactly as `send` frames it and then read back from a child that echoes it
/// verbatim, completes exactly one line, which is valid UTF-8 and decodes back
/// to the message, leaving nothing buffered.
pub proof fn lemma_echo_round_trip(msg: Seq<char>)
    requires
        !msg.contains('\n'),
    ensures
        ({
            let line = encode_utf8(msg);
            &&& lines_of(line.push(LINE_END)) == seq![line]
            &&& rest_of(line.push(LINE_END)) == Seq::<u8>::empty()
            &&& valid_utf8(line)
            &&& decode_utf8(line) == msg
        }),
{
    let line = encode_utf8(msg);
    lemma_encode_no_line_end(msg);
    lemma_no_line_end(line);
    assert(line.push(LINE_END).drop_last() =~= line);
    assert(line.push(LINE_END).last() == LINE_END);
    assert(lines_of(line.push(LINE_END)) =~= seq![line]);
    encode_utf8_valid_utf8(msg);
    encode_utf8_decode_utf8(msg);
}

} // verus!

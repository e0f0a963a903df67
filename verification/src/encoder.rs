//! Turns a source of bytes or 16-bit values into bus writes.
//!
//! Slices go out as one write. Streams go through a buffer of fixed size: a
//! write leaves whenever the buffer is full, and one more for what is left
//! when the stream ends. Cutting a stream up this way changes nothing of
//! what the bus sees but the places where one write ends and the next
//! begins.

use byte_slice_cast::AsByteSlice;
use vstd::prelude::*;
use vstd::slice::slice_to_vec;
use vstd::std_specs::iter::IteratorSpec;

use crate::endian::{encode_be, encode_le, swapped, words_be, words_le};
use crate::enums::{DataFormat, SpiError};
use crate::signal::{bus_writes, record, views, Action, ActionView};

verus! {

/// The size of the buffer that a stream of bytes goes through.
pub const BYTE_BUFFER: usize = 32;

/// The size in bytes of the buffer that a stream of 16-bit values goes
/// through.
pub const WORD_BUFFER: usize = 64;

/// `bytes` cut into runs of `cap` bytes; the last run holds what is left. No
/// run is empty.
pub open spec fn chunks(bytes: Seq<u8>, cap: nat) -> Seq<Seq<u8>>
    decreases bytes.len(),
{
    if cap == 0 || bytes.len() == 0 {
        seq![]
    } else if bytes.len() <= cap {
        seq![bytes]
    } else {
        seq![bytes.take(cap as int)] + chunks(bytes.skip(cap as int), cap)
    }
}

/// The bytes of all `writes`, one write after the other.
pub open spec fn joined(writes: Seq<Seq<u8>>) -> Seq<u8>
    decreases writes.len(),
{
    if writes.len() == 0 {
        seq![]
    } else {
        writes.first() + joined(writes.drop_first())
    }
}

/// The byte order a host keeps its integers in.
#[derive(Clone, Copy, Debug, PartialEq, Eq, Structural)]
pub enum ByteOrder {
    Little,
    Big,
}

/// The bus writes that `words` is sent as on a host of byte order `host`.
/// Only the format that goes out in the order of the host depends on it.
pub open spec fn encoded(words: DataFormat<'_>, host: ByteOrder) -> Seq<Seq<u8>> {
    match words {
        DataFormat::U8(bytes) => seq![bytes@],
        DataFormat::U16(values) => match host {
            ByteOrder::Little => seq![words_le(values@)],
            ByteOrder::Big => seq![words_be(values@)],
        },
        DataFormat::U16BE(values) => seq![words_be(values@)],
        DataFormat::U16LE(values) => seq![words_le(values@)],
        DataFormat::U8Iter(bytes) => chunks(bytes@, BYTE_BUFFER as nat),
        DataFormat::U16BEIter(values) => chunks(words_be(values@), WORD_BUFFER as nat),
        DataFormat::U16LEIter(values) => chunks(words_le(values@), WORD_BUFFER as nat),
        DataFormat::Other => seq![],
    }
}

/// Whether `after` is `before` with every value either kept or with its two
/// bytes exchanged.
pub open spec fn converted(before: Seq<u16>, after: Seq<u16>) -> bool {
    &&& after.len() == before.len()
    &&& forall|i: int|
        0 <= i < before.len() ==> #[trigger] after[i] == before[i] || after[i] == swapped(before[i])
}

/// Cutting a byte sequence into runs loses, repeats and reorders nothing:
/// the runs, one after the other, are the sequence. This holds for every
/// sequence and every size of buffer.
pub proof fn lemma_chunks_joined(bytes: Seq<u8>, cap: nat)
    requires
        cap > 0,
    ensures
        joined(chunks(bytes, cap)) == bytes,
    decreases bytes.len(),
{
    if bytes.len() == 0 {
        assert(joined(chunks(bytes, cap)) =~= bytes);
    } else if bytes.len() <= cap {
        let runs = chunks(bytes, cap);
        assert(runs.drop_first() =~= Seq::<Seq<u8>>::empty());
        assert(joined(runs.drop_first()) =~= Seq::<u8>::empty());
        assert(joined(runs) =~= bytes);
    } else {
        let runs = chunks(bytes, cap);
        let rest = bytes.skip(cap as int);
        lemma_chunks_joined(rest, cap);
        assert(runs.first() == bytes.take(cap as int));
        assert(runs.drop_first() =~= chunks(rest, cap));
        assert(joined(runs) =~= bytes);
    }
}

/// How many runs a byte sequence is cut into, and how long each is: every
/// run but the last fills the buffer, and the last holds between one byte
/// and a buffer full.
pub proof fn lemma_chunks_shape(bytes: Seq<u8>, cap: nat)
    requires
        cap > 0,
    ensures
        chunks(bytes, cap).len() == (bytes.len() + cap - 1) / (cap as int),
        forall|k: int|
            0 <= k < chunks(bytes, cap).len() - 1 ==> (#[trigger] chunks(bytes, cap)[k]).len()
                == cap,
        bytes.len() > 0 ==> 0 < chunks(bytes, cap).last().len() <= cap,
    decreases bytes.len(),
{
    let runs = chunks(bytes, cap);
    if bytes.len() == 0 {
        assert((bytes.len() + cap - 1) / (cap as int) == 0) by (nonlinear_arith)
            requires
                bytes.len() == 0,
                cap > 0,
        ;
    } else if bytes.len() <= cap {
        assert((bytes.len() + cap - 1) / (cap as int) == 1) by (nonlinear_arith)
            requires
                0 < bytes.len() <= cap,
        ;
    } else {
        let rest = bytes.skip(cap as int);
        lemma_chunks_shape(rest, cap);
        assert((bytes.len() + cap - 1) / (cap as int) == (rest.len() + cap - 1) / (cap as int) + 1)
            by (nonlinear_arith)
            requires
                rest.len() == bytes.len() - cap,
                cap > 0,
        ;
        assert forall|k: int| 0 <= k < runs.len() - 1 implies (#[trigger] runs[k]).len() == cap by {
            if k > 0 {
                assert(runs[k] == chunks(rest, cap)[k - 1]);
            }
        }
        assert(runs.last() == chunks(rest, cap).last());
    }
}

/// Sends `bytes` through a buffer of `cap` bytes: one write for each full
/// buffer, and one for what is left at the end.
pub fn stream(plan: &mut Vec<Action>, bytes: &[u8], cap: usize)
    requires
        cap > 0,
    ensures
        views(final(plan)@) == views(old(plan)@) + bus_writes(chunks(bytes@, cap as nat)),
{
    let n: usize = bytes.len();
    let mut buf: Vec<u8> = Vec::new();
    let mut i: usize = 0;
    let ghost mut sent: Seq<Seq<u8>> = Seq::empty();
    assert(views(plan@) =~= views(old(plan)@) + bus_writes(sent));
    assert(bytes@.skip(0) =~= bytes@);
    assert(sent + chunks(bytes@, cap as nat) =~= chunks(bytes@, cap as nat));
    while i < n
        invariant
            cap > 0,
            n == bytes@.len(),
            i <= n,
            buf@.len() < cap,
            buf@.len() <= i,
            buf@ == bytes@.subrange(i - buf@.len(), i as int),
            views(plan@) == views(old(plan)@) + bus_writes(sent),
            sent + chunks(bytes@.skip(i - buf@.len()), cap as nat) == chunks(bytes@, cap as nat),
        decreases n - i,
    {
        let ghost start: int = i - buf@.len();
        let ghost rest: Seq<u8> = bytes@.skip(start);
        buf.push(bytes[i]);
        i = i + 1;
        assert(buf@ =~= bytes@.subrange(start, i as int));
        if buf.len() == cap {
            proof {
                assert(buf@ =~= rest.take(cap as int));
                if rest.len() > cap {
                    assert(rest.skip(cap as int) =~= bytes@.skip(i as int));
                } else {
                    assert(buf@ =~= rest);
                    assert(bytes@.skip(i as int).len() == 0);
                    assert(seq![rest] + chunks(bytes@.skip(i as int), cap as nat) =~= seq![rest]);
                }
                assert(chunks(rest, cap as nat) == seq![buf@] + chunks(
                    bytes@.skip(i as int),
                    cap as nat,
                ));
                assert(sent.push(buf@) + chunks(bytes@.skip(i as int), cap as nat) =~= sent + (
                seq![buf@] + chunks(bytes@.skip(i as int), cap as nat)));
                assert(bus_writes(sent.push(buf@)) =~= bus_writes(sent).push(
                    ActionView::Write { bytes: buf@ },
                ));
                sent = sent.push(buf@);
            }
            record(plan, Action::Write { bytes: buf });
            buf = Vec::new();
            assert(buf@ =~= bytes@.subrange(i as int, i as int));
        }
    }
    if buf.len() > 0 {
        proof {
            let rest: Seq<u8> = bytes@.skip(n - buf@.len());
            assert(buf@ =~= rest);
            assert(chunks(rest, cap as nat) == seq![buf@]);
            assert(sent.push(buf@) =~= sent + seq![buf@]);
            assert(bus_writes(sent.push(buf@)) =~= bus_writes(sent).push(
                ActionView::Write { bytes: buf@ },
            ));
        }
        record(plan, Action::Write { bytes: buf });
    } else {
        proof {
            assert(bytes@.skip(n as int).len() == 0);
            assert(sent + chunks(bytes@.skip(n as int), cap as nat) =~= sent);
        }
    }
}

/// The memory of `values` as bytes, by `byte_slice_cast`'s
/// `AsByteSlice::as_byte_slice`.
///
/// Taken on trust: the bytes are those of the values in the order the host
/// keeps its integers in, so they are either every value least significant
/// byte first or every value most significant byte first.
#[verifier::external_body]
fn native_bytes<'a>(values: &'a [u16]) -> (bytes: &'a [u8])
    ensures
        bytes@ == words_le(values@) || bytes@ == words_be(values@),
{
    values.as_byte_slice()
}

/// Taken on trust of `u16::to_le`: on a host that keeps the least
/// significant byte first the value comes back as it is, on any other with
/// its two bytes exchanged.
pub assume_specification[ u16::to_le ](value: u16) -> (out: u16)
    ensures
        out == value || out == swapped(value),
;

/// Taken on trust of `u16::to_be`: on a host that keeps the most significant
/// byte first the value comes back as it is, on any other with its two
/// bytes exchanged.
pub assume_specification[ u16::to_be ](value: u16) -> (out: u16)
    ensures
        out == value || out == swapped(value),
;

/// Puts every value of `values` into the form in which the host's memory
/// holds it least significant byte first.
fn convert_le(values: &mut [u16])
    ensures
        converted(old(values)@, final(values)@),
{
    let n: usize = values.len();
    let mut i: usize = 0;
    while i < n
        invariant
            n == old(values)@.len(),
            values@.len() == n,
            i <= n,
            forall|j: int|
                0 <= j < i ==> #[trigger] values@[j] == old(values)@[j] || values@[j] == swapped(
                    old(values)@[j],
                ),
            forall|j: int| i <= j < n ==> #[trigger] values@[j] == old(values)@[j],
        decreases n - i,
    {
        let value: u16 = values[i];
        values[i] = value.to_le();
        i = i + 1;
    }
}

/// Puts every value of `values` into the form in which the host's memory
/// holds it most significant byte first.
fn convert_be(values: &mut [u16])
    ensures
        converted(old(values)@, final(values)@),
{
    let n: usize = values.len();
    let mut i: usize = 0;
    while i < n
        invariant
            n == old(values)@.len(),
            values@.len() == n,
            i <= n,
            forall|j: int|
                0 <= j < i ==> #[trigger] values@[j] == old(values)@[j] || values@[j] == swapped(
                    old(values)@[j],
                ),
            forall|j: int| i <= j < n ==> #[trigger] values@[j] == old(values)@[j],
        decreases n - i,
    {
        let value: u16 = values[i];
        values[i] = value.to_be();
        i = i + 1;
    }
}

/// Adds to `plan` the bus writes that send `words`.
///
/// A slice goes out as one write, a stream in runs of the size of its
/// buffer. The two formats that are converted in place leave each of the
/// caller's values either as it was or with its bytes exchanged, as the
/// host's byte order has it. A format without an encoding adds nothing and
/// is refused.
pub fn send_u8(plan: &mut Vec<Action>, words: DataFormat<'_>) -> (result: Result<(), SpiError>)
    ensures
        result == if words is Other {
            Err::<(), SpiError>(SpiError::DataFormatNotImplemented)
        } else {
            Ok::<(), SpiError>(())
        },
        views(final(plan)@) == views(old(plan)@) + bus_writes(encoded(words, ByteOrder::Little))
            || views(final(plan)@) == views(old(plan)@) + bus_writes(
            encoded(words, ByteOrder::Big),
        ),
        words matches DataFormat::U16LE(values) ==> converted(values@, final(values)@),
        words matches DataFormat::U16BE(values) ==> converted(values@, final(values)@),
{
    match words {
        DataFormat::U8(slice) => {
            let bytes: Vec<u8> = slice_to_vec(slice);
            proof {
                lemma_single_write(views(plan@), bytes@);
            }
            record(plan, Action::Write { bytes });
            Ok(())
        },
        DataFormat::U16(slice) => {
            let bytes: Vec<u8> = slice_to_vec(native_bytes(slice));
            proof {
                lemma_single_write(views(plan@), bytes@);
            }
            record(plan, Action::Write { bytes });
            Ok(())
        },
        DataFormat::U16LE(slice) => {
            let bytes: Vec<u8> = encode_le(slice);
            convert_le(slice);
            proof {
                lemma_single_write(views(plan@), bytes@);
            }
            record(plan, Action::Write { bytes });
            Ok(())
        },
        DataFormat::U16BE(slice) => {
            let bytes: Vec<u8> = encode_be(slice);
            convert_be(slice);
            proof {
                lemma_single_write(views(plan@), bytes@);
            }
            record(plan, Action::Write { bytes });
            Ok(())
        },
        DataFormat::U8Iter(items) => {
            stream(plan, items, BYTE_BUFFER);
            Ok(())
        },
        DataFormat::U16LEIter(items) => {
            let bytes: Vec<u8> = encode_le(items);
            stream(plan, bytes.as_slice(), WORD_BUFFER);
            Ok(())
        },
        DataFormat::U16BEIter(items) => {
            let bytes: Vec<u8> = encode_be(items);
            stream(plan, bytes.as_slice(), WORD_BUFFER);
            Ok(())
        },
        DataFormat::Other => {
            assert(views(plan@) =~= views(plan@) + bus_writes(Seq::<Seq<u8>>::empty()));
            Err(SpiError::DataFormatNotImplemented)
        },
    }
}

/// The items that `stream` yields, in order. The stream has to come to an
/// end.
pub fn collect<T: Iterator<Item = u16>>(stream: T) -> (items: Vec<u16>)
    requires
        stream.obeys_prophetic_iter_laws(),
        stream.decrease() is Some,
    ensures
        items@ == stream.remaining(),
{
    let mut stream = stream;
    let mut items: Vec<u16> = Vec::new();
    let ghost all: Seq<u16> = stream.remaining();
    loop
        invariant
            stream.obeys_prophetic_iter_laws(),
            stream.decrease() is Some,
            items@ + stream.remaining() == all,
        ensures
            items@ == all,
        decreases stream.decrease()->0,
    {
        match stream.next() {
            Some(item) => {
                items.push(item);
            },
            None => {
                assert(items@ + stream.remaining() =~= items@);
                break ;
            },
        }
    }
    items
}

/// Adding one write to a plan is adding the writes of a single run.
proof fn lemma_single_write(plan: Seq<ActionView>, bytes: Seq<u8>)
    ensures
        plan.push(ActionView::Write { bytes }) == plan + bus_writes(seq![bytes]),
{
    assert(plan.push(ActionView::Write { bytes }) =~= plan + bus_writes(seq![bytes]));
}

} // verus!

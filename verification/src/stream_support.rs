//! Exchange of bytes with Java streams, through the byte buffers of Java objects.

use crate::text::join;
use vstd::prelude::*;
use vstd::string::*;

verus! {

/// The Java class that bytes are read from.
pub const INDEX_INPUT_WITH_BUFFER_CLASS: &'static str =
    "org/opensearch/knn/index/store/IndexInputWithBuffer";

/// The Java class that bytes are written to.
pub const INDEX_OUTPUT_WITH_BUFFER_CLASS: &'static str =
    "org/opensearch/knn/index/store/IndexOutputWithBuffer";

pub const COPY_BYTES_METHOD_NAME: &'static str = "copyBytes";
pub const COPY_BYTES_METHOD_SIG: &'static str = "(J)I";

pub const REMAINING_BYTES_METHOD_NAME: &'static str = "remainingBytes";
pub const REMAINING_BYTES_METHOD_SIG: &'static str = "()J";

pub const WRITE_BYTES_METHOD_NAME: &'static str = "writeBytes";
pub const WRITE_BYTES_METHOD_SIG: &'static str = "(I)V";

pub const BUFFER_FIELD_NAME: &'static str = "buffer";
pub const BUFFER_FIELD_SIG: &'static str = "[B";

fn copy(source: &[u8], from: usize, count: usize, target: &mut [u8], at: usize)
    requires
        from + count <= source.len(),
        at + count <= old(target).len(),
    ensures
        final(target)@.len() == old(target)@.len(),
        final(target)@ == old(target)@.take(at as int) + source@.subrange(
            from as int,
            from + count,
        ) + old(target)@.skip(at + count),
{
    let mut i: usize = 0;
    while i < count
        invariant
            i <= count,
            from + count <= source.len(),
            at + count <= old(target).len(),
            target@.len() == old(target)@.len(),
            forall|j: int|
                0 <= j < target@.len() ==> #[trigger] target@[j] == if at <= j < at + i {
                    source@[from + j - at]
                } else {
                    old(target)@[j]
                },
        decreases count - i,
    {
        target[at + i] = source[from + i];
        i += 1;
    }
    assert(target@ =~= old(target)@.take(at as int) + source@.subrange(
        from as int,
        from + count,
    ) + old(target)@.skip(at + count));
}

/// Reads bytes from a Java stream: Java fills its buffer, and what it read is
/// copied from there until everything is there.
pub struct NativeEngineIndexInputMediator {
    /// How many bytes are read in all.
    pub nbytes: usize,
    /// How many of them are there.
    pub done: usize,
}

impl NativeEngineIndexInputMediator {
    /// No more is there than is read in all.
    pub open spec fn wf(&self) -> bool {
        self.done <= self.nbytes
    }

    /// A reading of `nbytes` bytes, of which none is there.
    pub fn new(nbytes: usize) -> (mediator: Self)
        ensures
            mediator.wf(),
            mediator.nbytes == nbytes,
            mediator.done == 0,
    {
        NativeEngineIndexInputMediator { nbytes, done: 0 }
    }

    /// How many bytes Java is asked for; nothing where everything is there.
    pub fn request(&self) -> (count: Option<usize>)
        requires
            self.wf(),
        ensures
            count == if self.done < self.nbytes {
                Some((self.nbytes - self.done) as usize)
            } else {
                None
            },
    {
        if self.done < self.nbytes {
            Some(self.nbytes - self.done)
        } else {
            None
        }
    }

    /// Takes the bytes that Java read into its buffer. The bytes that are there are
    /// those that were there before, and these behind them.
    pub fn copy_bytes(&mut self, buffer: &[u8], read_bytes: usize, destination: &mut [u8])
        requires
            old(self).wf(),
            read_bytes <= buffer@.len(),
            read_bytes <= old(self).nbytes - old(self).done,
            old(destination)@.len() == old(self).nbytes,
        ensures
            final(self).wf(),
            final(self).nbytes == old(self).nbytes,
            final(self).done == old(self).done + read_bytes,
            final(destination)@.len() == old(destination)@.len(),
            final(destination)@.take(final(self).done as int) == old(destination)@.take(
                old(self).done as int,
            ) + buffer@.take(read_bytes as int),
            final(destination)@.skip(final(self).done as int) == old(destination)@.skip(
                final(self).done as int,
            ),
    {
        let done = self.done;
        copy(buffer, 0, read_bytes, destination, done);
        self.done = done + read_bytes;
        assert(buffer@.subrange(0, read_bytes as int) =~= buffer@.take(read_bytes as int));
        assert(destination@.take(done + read_bytes) =~= old(destination)@.take(done as int)
            + buffer@.take(read_bytes as int));
        assert(destination@.skip(done + read_bytes) =~= old(destination)@.skip(done + read_bytes));
    }
}

/// Writes bytes to a Java stream: they are gathered in the buffer of the Java
/// object, which Java writes out whenever it is full.
pub struct NativeEngineIndexOutputMediator {
    buffer_length: usize,
    next_write_index: i32,
}

/// What one step of writing did.
#[derive(Debug, Clone, Copy, PartialEq, Eq, Structural)]
pub struct WriteStep {
    /// How many bytes went into the buffer.
    pub copied: usize,
    /// How many bytes of the buffer Java writes out now, if any.
    pub write_out: Option<i32>,
}

/// How many of `left` bytes go into a buffer of `capacity` bytes that holds
/// `pending`.
pub open spec fn room_taken(capacity: nat, pending: nat, left: nat) -> nat {
    if left <= capacity - pending {
        left
    } else {
        (capacity - pending) as nat
    }
}

/// Bytes on their way to a stream: those that Java wrote out, and those that wait
/// in the buffer.
pub struct Passage {
    pub written: Seq<u8>,
    pub pending: Seq<u8>,
}

/// Java writes out what waits in the buffer.
pub open spec fn written_out(passage: Passage) -> Passage {
    Passage { written: passage.written + passage.pending, pending: Seq::empty() }
}

/// One step of writing: what has room goes into the buffer, and the buffer is
/// written out where it is full.
pub open spec fn after_step(capacity: nat, passage: Passage, source: Seq<u8>) -> Passage {
    let count = room_taken(capacity, passage.pending.len(), source.len());
    let filled = Passage {
        written: passage.written,
        pending: passage.pending + source.take(count as int),
    };
    if filled.pending.len() >= capacity {
        written_out(filled)
    } else {
        filled
    }
}

/// Writing of all of `source`.
pub open spec fn after_writing(capacity: nat, passage: Passage, source: Seq<u8>) -> Passage
    decreases source.len(),
{
    if source.len() == 0 || passage.pending.len() >= capacity {
        passage
    } else {
        let count = room_taken(capacity, passage.pending.len(), source.len());
        after_writing(capacity, after_step(capacity, passage, source), source.skip(count as int))
    }
}

/// Writing loses and reorders nothing: what Java wrote out and what waits in the
/// buffer are together all that was written, in order. What waits never fills the
/// buffer.
pub proof fn lemma_writing_keeps_bytes(capacity: nat, passage: Passage, source: Seq<u8>)
    requires
        passage.pending.len() < capacity,
    ensures
        ({
            let after = after_writing(capacity, passage, source);
            &&& after.written + after.pending == passage.written + passage.pending + source
            &&& after.pending.len() < capacity
        }),
    decreases source.len(),
{
    if source.len() > 0 {
        let count = room_taken(capacity, passage.pending.len(), source.len());
        let next = after_step(capacity, passage, source);
        assert(next.written + next.pending =~= passage.written + passage.pending + source.take(
            count as int,
        ));
        lemma_writing_keeps_bytes(capacity, next, source.skip(count as int));
        assert(passage.written + passage.pending + source.take(count as int) + source.skip(
            count as int,
        ) =~= passage.written + passage.pending + source);
    } else {
        assert(passage.written + passage.pending + source =~= passage.written + passage.pending);
    }
}

/// Once everything is written and the buffer is flushed, Java has written out all
/// of it, in order.
pub proof fn lemma_flush_completes(capacity: nat, source: Seq<u8>)
    requires
        capacity > 0,
    ensures
        written_out(
            after_writing(
                capacity,
                Passage { written: Seq::empty(), pending: Seq::empty() },
                source,
            ),
        ).written == source,
{
    let start = Passage { written: Seq::<u8>::empty(), pending: Seq::<u8>::empty() };
    lemma_writing_keeps_bytes(capacity, start, source);
    assert(start.written + start.pending + source =~= source);
}

/// Reading on where `done` is there: Java fills its buffer once for each chunk, and
/// what it read comes behind what is there.
pub open spec fn after_reading(done: Seq<u8>, chunks: Seq<Seq<u8>>) -> Seq<u8>
    decreases chunks.len(),
{
    if chunks.len() == 0 {
        done
    } else {
        after_reading(done + chunks[0], chunks.drop_first())
    }
}

/// Reading loses and reorders nothing, however Java splits the bytes.
pub proof fn lemma_reading_keeps_bytes(done: Seq<u8>, chunks: Seq<Seq<u8>>)
    ensures
        after_reading(done, chunks) == done + chunks.flatten(),
    decreases chunks.len(),
{
    if chunks.len() == 0 {
        assert(done + chunks.flatten() =~= done);
    } else {
        lemma_reading_keeps_bytes(done + chunks[0], chunks.drop_first());
        assert(done + chunks[0] + chunks.drop_first().flatten() =~= done + chunks.flatten());
    }
}

/// What was written to a Java stream and flushed is read back as it was, however
/// large the buffers are and however Java splits the bytes.
pub proof fn lemma_read_gives_back_what_was_written(
    capacity: nat,
    source: Seq<u8>,
    chunks: Seq<Seq<u8>>,
)
    requires
        capacity > 0,
        chunks.flatten() == written_out(
            after_writing(
                capacity,
                Passage { written: Seq::empty(), pending: Seq::empty() },
                source,
            ),
        ).written,
    ensures
        after_reading(Seq::empty(), chunks) == source,
{
    lemma_flush_completes(capacity, source);
    lemma_reading_keeps_bytes(Seq::empty(), chunks);
    assert(Seq::<u8>::empty() + chunks.flatten() =~= source);
}

impl NativeEngineIndexOutputMediator {
    /// How many bytes the buffer takes.
    pub closed spec fn capacity(&self) -> nat {
        self.buffer_length as nat
    }

    /// How many bytes wait in the buffer.
    pub closed spec fn waiting(&self) -> nat {
        self.next_write_index as nat
    }

    /// The buffer is not full.
    pub closed spec fn wf(&self) -> bool {
        &&& 0 <= self.next_write_index < self.buffer_length
        &&& self.buffer_length <= i32::MAX
    }

    /// Writing through an empty buffer of `buffer_length` bytes.
    pub fn new(buffer_length: usize) -> (mediator: Self)
        requires
            0 < buffer_length <= i32::MAX,
        ensures
            mediator.wf(),
            mediator.capacity() == buffer_length,
            mediator.waiting() == 0,
    {
        NativeEngineIndexOutputMediator { buffer_length, next_write_index: 0 }
    }

    /// One step of writing `source`, of which the first `done` bytes are written.
    pub fn write_bytes(&mut self, source: &[u8], done: usize, buffer: &mut [u8]) -> (step: WriteStep)
        requires
            old(self).wf(),
            done <= source@.len(),
            old(buffer)@.len() == old(self).capacity(),
        ensures
            final(self).wf(),
            final(self).capacity() == old(self).capacity(),
            final(buffer)@.len() == old(buffer)@.len(),
            step.copied == room_taken(
                old(self).capacity(),
                old(self).waiting(),
                (source@.len() - done) as nat,
            ),
            done < source@.len() ==> step.copied > 0,
            ({
                let before = Passage {
                    written: Seq::empty(),
                    pending: old(buffer)@.take(old(self).waiting() as int),
                };
                let after = after_step(old(self).capacity(), before, source@.skip(done as int));
                match step.write_out {
                    Some(count) => {
                        &&& final(self).waiting() == 0
                        &&& count == old(self).capacity()
                        &&& after.written == final(buffer)@.take(count as int)
                        &&& after.pending.len() == 0
                    },
                    None => {
                        &&& after.written.len() == 0
                        &&& after.pending == final(buffer)@.take(final(self).waiting() as int)
                        &&& after.pending.len() == final(self).waiting()
                    },
                }
            }),
    {
        let at = self.next_write_index as usize;
        let available = self.buffer_length - at;
        let left = source.len() - done;
        let copied = if left < available {
            left
        } else {
            available
        };
        copy(source, done, copied, buffer, at);
        proof {
            let pending = old(buffer)@.take(at as int);
            assert(source@.skip(done as int).take(copied as int) =~= source@.subrange(
                done as int,
                done + copied,
            ));
            assert(buffer@.take(at + copied) =~= pending + source@.subrange(
                done as int,
                done + copied,
            ));
            assert(Seq::<u8>::empty() + buffer@.take(at + copied) =~= buffer@.take(at + copied));
        }
        self.next_write_index = (at + copied) as i32;
        if self.next_write_index as usize >= self.buffer_length {
            let count = self.next_write_index;
            self.next_write_index = 0;
            WriteStep { copied, write_out: Some(count) }
        } else {
            WriteStep { copied, write_out: None }
        }
    }

    /// How many bytes of the buffer Java writes out at the end, if any.
    pub fn flush(&mut self) -> (write_out: Option<i32>)
        requires
            old(self).wf(),
        ensures
            final(self).wf(),
            final(self).capacity() == old(self).capacity(),
            final(self).waiting() == 0,
            match write_out {
                Some(count) => count == old(self).waiting() && count > 0,
                None => old(self).waiting() == 0,
            },
    {
        if self.next_write_index > 0 {
            let count = self.next_write_index;
            self.next_write_index = 0;
            Some(count)
        } else {
            None
        }
    }
}

/// What goes wrong while bytes are exchanged with a Java stream.
#[derive(Debug, Clone, Copy, PartialEq, Eq, Structural)]
pub enum StreamFault {
    /// Java could not read.
    Reading,
    /// Java could not tell how many bytes remain.
    Remaining,
    /// Java could not write.
    Writing,
}

impl StreamFault {
    /// The description of the fault.
    pub open spec fn text(self) -> Seq<char> {
        match self {
            StreamFault::Reading => "Reading bytes via IndexInput has failed."@,
            StreamFault::Remaining => "Checking remaining bytes has failed."@,
            StreamFault::Writing => "Writing bytes via IndexOutput has failed."@,
        }
    }

    /// The description of the fault.
    pub fn message(self) -> (text: String)
        ensures
            text@ == self.text(),
    {
        match self {
            StreamFault::Reading => "Reading bytes via IndexInput has failed.".to_owned(),
            StreamFault::Remaining => "Checking remaining bytes has failed.".to_owned(),
            StreamFault::Writing => "Writing bytes via IndexOutput has failed.".to_owned(),
        }
    }
}

/// What of a Java stream is looked for.
#[derive(Debug, Clone, Copy, PartialEq, Eq, Structural)]
pub enum StreamPart {
    Class,
    Method,
    Field,
}

/// What is said where a part of a Java stream is not found.
pub fn missing_part(part: StreamPart, name: &str) -> (text: String)
    ensures
        text@ == match part {
            StreamPart::Class => "Failed to find class "@ + name@,
            StreamPart::Method => "Failed to find method "@ + name@,
            StreamPart::Field => "Failed to find field "@ + name@,
        },
{
    match part {
        StreamPart::Class => join("Failed to find class ", name),
        StreamPart::Method => join("Failed to find method ", name),
        StreamPart::Field => join("Failed to find field ", name),
    }
}

/// A step of writing takes as many bytes as there are and as there is room for, and Java
/// writes out exactly when the buffer is full.
pub proof fn lemma_step_fills_the_buffer(capacity: nat, passage: Passage, source: Seq<u8>)
    requires
        passage.pending.len() < capacity,
    ensures
        ({
            let room = capacity - passage.pending.len();
            let count = room_taken(capacity, passage.pending.len(), source.len());
            let after = after_step(capacity, passage, source);
            &&& count <= room && count <= source.len()
            &&& count == room || count == source.len()
            &&& after.written + after.pending == passage.written + passage.pending + source.take(
                count as int,
            )
            &&& after.pending.len() == (if source.len() >= room {
                0
            } else {
                passage.pending.len() + source.len()
            })
            &&& source.len() < room ==> after.written == passage.written
        }),
{
    let count = room_taken(capacity, passage.pending.len(), source.len());
    let after = after_step(capacity, passage, source);
    assert(after.written + after.pending =~= passage.written + passage.pending + source.take(
        count as int,
    ));
}

/// A reading asks for all that is missing, and stops once nothing is.
pub proof fn lemma_request(mediator: NativeEngineIndexInputMediator, count: Option<usize>)
    requires
        mediator.wf(),
        call_ensures(NativeEngineIndexInputMediator::request, (&mediator,), count),
    ensures
        count is None <==> mediator.done == mediator.nbytes,
        count matches Some(n) ==> n > 0 && mediator.done + n == mediator.nbytes,
{
}

/// What is said of a missing part names the kind of part and ends with its name.
pub proof fn lemma_missing_part(part: StreamPart, name: &str, text: String)
    requires
        call_ensures(missing_part, (part, name), text),
    ensures
        text@.len() > name@.len(),
        text@.skip(text@.len() - name@.len()) == name@,
        part is Class ==> text@.take(text@.len() - name@.len()) == "Failed to find class "@,
        part is Method ==> text@.take(text@.len() - name@.len()) == "Failed to find method "@,
        part is Field ==> text@.take(text@.len() - name@.len()) == "Failed to find field "@,
{
    reveal_strlit("Failed to find class ");
    reveal_strlit("Failed to find method ");
    reveal_strlit("Failed to find field ");
    assert(text@.skip(text@.len() - name@.len()) =~= name@);
}

/// What Java read stands behind what was read before, in its order, and the rest of the destination
/// stays as it is.
pub proof fn lemma_copied(
    mediator: &mut NativeEngineIndexInputMediator,
    buffer: &[u8],
    read_bytes: usize,
    destination: &mut [u8],
)
    requires
        old(mediator).wf(),
        read_bytes <= buffer@.len(),
        read_bytes <= old(mediator).nbytes - old(mediator).done,
        old(destination)@.len() == old(mediator).nbytes,
        call_ensures(
            NativeEngineIndexInputMediator::copy_bytes,
            (mediator, buffer, read_bytes, destination),
            (),
        ),
    ensures
        final(mediator).nbytes == old(mediator).nbytes,
        final(mediator).done == old(mediator).done + read_bytes,
        final(destination)@.len() == old(destination)@.len(),
        forall|i: int|
            0 <= i < read_bytes ==> final(destination)@[old(mediator).done + i]
                == #[trigger] buffer@[i],
        forall|i: int|
            0 <= i < old(mediator).done ==> #[trigger] final(destination)@[i] == old(destination)@[i],
        forall|i: int|
            old(mediator).done + read_bytes <= i < old(destination)@.len() ==> #[trigger] final(destination)@[i] == old(destination)@[i],
{
    let done = old(mediator).done as int;
    let now = final(mediator).done as int;
    let before = old(destination)@;
    let after = final(destination)@;
    assert forall|i: int| 0 <= i < read_bytes implies after[done + i] == #[trigger] buffer@[i] by {
        assert(after.take(now)[done + i] == after[done + i]);
    }
    assert forall|i: int| 0 <= i < done implies #[trigger] after[i] == before[i] by {
        assert(after.take(now)[i] == after[i]);
    }
    assert forall|i: int| now <= i < before.len() implies #[trigger] after[i] == before[i] by {
        assert(after.skip(now)[i - now] == after[i]);
        assert(before.skip(now)[i - now] == before[i]);
    }
}

/// A step of writing puts the next bytes of the source behind those that wait, as many as there is
/// room for; the buffer is written out where it is full, and only there, and what waits is what was
/// not written out.
pub proof fn lemma_written(
    mediator: &mut NativeEngineIndexOutputMediator,
    source: &[u8],
    done: usize,
    buffer: &mut [u8],
    step: WriteStep,
)
    requires
        old(mediator).wf(),
        done <= source@.len(),
        old(buffer)@.len() == old(mediator).capacity(),
        old(mediator).waiting() < old(mediator).capacity(),
        call_ensures(
            NativeEngineIndexOutputMediator::write_bytes,
            (mediator, source, done, buffer),
            step,
        ),
    ensures
        final(mediator).capacity() == old(mediator).capacity(),
        step.copied <= source@.len() - done,
        step.copied <= old(mediator).capacity() - old(mediator).waiting(),
        step.copied == source@.len() - done || step.copied == old(mediator).capacity() - old(mediator).waiting(),
        step.write_out is Some <==> old(mediator).waiting() + step.copied == old(mediator).capacity(),
        step.write_out matches Some(count) ==> count == old(mediator).capacity() && final(mediator).waiting() == 0,
        step.write_out is None ==> final(mediator).waiting() == old(mediator).waiting()
            + step.copied,
        forall|i: int|
            0 <= i < old(mediator).waiting() ==> #[trigger] final(buffer)@[i] == old(buffer)@[i],
        forall|i: int|
            0 <= i < step.copied ==> #[trigger] source@[done + i] == final(buffer)@[old(mediator).waiting() + i],
{
    let waiting = old(mediator).waiting();
    let capacity = old(mediator).capacity();
    let before = Passage { written: Seq::empty(), pending: old(buffer)@.take(waiting as int) };
    let rest = source@.skip(done as int);
    let after = after_step(capacity, before, rest);
    lemma_step_fills_the_buffer(capacity, before, rest);
    let all = after.written + after.pending;
    assert(all =~= before.pending + rest.take(step.copied as int));
    let full = waiting + step.copied;
    assert(all.len() == full);
    assert(all =~= final(buffer)@.take(full as int));
    assert forall|i: int| 0 <= i < waiting implies #[trigger] final(buffer)@[i] == old(buffer)@[i] by {
        assert(all[i] == before.pending[i]);
        assert(final(buffer)@.take(full as int)[i] == final(buffer)@[i]);
    }
    assert forall|i: int| 0 <= i < step.copied implies #[trigger] source@[done + i] == final(buffer)@[waiting + i] by {
        assert(all[waiting + i] == rest[i]);
        assert(final(buffer)@.take(full as int)[waiting + i] == final(buffer)@[waiting + i]);
    }
}

/// All that waits is written out at the end, and nothing where nothing waits.
pub proof fn lemma_flushed(mediator: &mut NativeEngineIndexOutputMediator, write_out: Option<i32>)
    requires
        old(mediator).wf(),
        call_ensures(NativeEngineIndexOutputMediator::flush, (mediator,), write_out),
    ensures
        write_out is None <==> old(mediator).waiting() == 0,
        write_out matches Some(count) ==> count == old(mediator).waiting(),
        final(mediator).waiting() == 0,
        final(mediator).capacity() == old(mediator).capacity(),
{
}

/// A reading begins with nothing read of all that is asked for, and a writing with an empty buffer of
/// the length that is asked for.
pub proof fn lemma_begun(
    nbytes: usize,
    input: NativeEngineIndexInputMediator,
    buffer_length: usize,
    output: NativeEngineIndexOutputMediator,
)
    requires
        call_ensures(NativeEngineIndexInputMediator::new, (nbytes,), input),
        0 < buffer_length <= i32::MAX,
        call_ensures(NativeEngineIndexOutputMediator::new, (buffer_length,), output),
    ensures
        input.nbytes == nbytes,
        input.done == 0,
        output.capacity() == buffer_length,
        output.waiting() == 0,
{
}

/// What failed is told.
pub proof fn lemma_faults_are_told(fault: StreamFault, text: String)
    requires
        call_ensures(StreamFault::message, (fault,), text),
    ensures
        fault is Reading ==> text@ == "Reading bytes via IndexInput has failed."@,
        fault is Remaining ==> text@ == "Checking remaining bytes has failed."@,
        fault is Writing ==> text@ == "Writing bytes via IndexOutput has failed."@,
{
}

} // verus!

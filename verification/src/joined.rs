//! A reader and a writer as one.

use vstd::prelude::*;

verus! {

/// A reader and a writer as one, as [`join`] makes it.
#[derive(Debug)]
pub struct JointReaderWriter<R, W> {
    reader: R,
    writer: W,
}

impl<R, W> JointReaderWriter<R, W> {
    /// The reader.
    pub closed spec fn reading(self) -> R {
        self.reader
    }

    /// The writer.
    pub closed spec fn writing(self) -> W {
        self.writer
    }

    /// The reader, to read from. The writer is not touched.
    pub fn reader_mut(&mut self) -> (r: &mut R)
        ensures
            *r == old(self).reading(),
            final(self).reading() == *final(r),
            final(self).writing() == old(self).writing(),
    {
        &mut self.reader
    }

    /// The writer, to write to. The reader is not touched.
    pub fn writer_mut(&mut self) -> (r: &mut W)
        ensures
            *r == old(self).writing(),
            final(self).writing() == *final(r),
            final(self).reading() == old(self).reading(),
    {
        &mut self.writer
    }
}

/// Makes one of a reader and a writer.
pub fn join<R, W>(reader: R, writer: W) -> (r: JointReaderWriter<R, W>)
    ensures
        r.reading() == reader,
        r.writing() == writer,
{
    JointReaderWriter { reader, writer }
}

} // verus!

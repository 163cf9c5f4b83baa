use vstd::prelude::*;
use vstd::string::StringSliceAdditionalSpecFns;

verus! {

/// Why a conversion failed: the caller's sink refused a write, or output
/// bytes could not be read back as text. Malformed markup is never an
/// error; it degrades to literal output instead.
#[derive(Clone, Copy, PartialEq, Eq, Structural, Debug)]
pub enum ConversionError {
    Sink,
    Encoding,
}

/// A caller-supplied sink. `sunk()` models every write the sink has
/// completed: a successful write appends exactly the written bytes to it, a
/// failed write counts nothing and surfaces as the sink error.
pub trait WriteFmt {
    spec fn sunk(&self) -> Seq<u8>;

    fn write_str(&mut self, s: &str) -> (r: Result<(), ConversionError>)
        ensures
            r is Ok ==> final(self).sunk() == old(self).sunk() + s.spec_bytes(),
            r is Err ==> final(self).sunk() == old(self).sunk(),
            r is Err ==> r == Err::<(), ConversionError>(ConversionError::Sink),
    ;
}

/// Relies on std::io::Write::write_all: on success the whole buffer was
/// handed to the underlying writer.
#[verifier::external_body]
fn io_write_all<W: std::io::Write>(w: &mut W, s: &str) -> (r: Result<(), ConversionError>) {
    w.write_all(s.as_bytes()).map_err(|_| ConversionError::Sink)
}

/// Relies on String::push_str: it appends the given slice onto the end of
/// the string.
pub assume_specification[ String::push_str ](s: &mut String, other: &str)
    ensures
        final(s)@ == old(s)@ + other@,
;

/// The standard-output handle, opaque here; vstd gives it no specification.
#[verifier::external_type_specification]
#[verifier::external_body]
pub struct ExStdout(std::io::Stdout);

/// A sink over any byte-oriented writer.
pub struct IoWriter<W> {
    pub writer: W,
    pub log: Ghost<Seq<u8>>,
}

impl<W> IoWriter<W> {
    pub fn new(writer: W) -> (r: Self)
        ensures
            r.log@ == Seq::<u8>::empty(),
    {
        IoWriter { writer, log: Ghost(Seq::empty()) }
    }

    pub fn into_inner(self) -> W {
        self.writer
    }
}

impl WriteFmt for IoWriter<std::io::Stdout> {
    open spec fn sunk(&self) -> Seq<u8> {
        self.log@
    }

    fn write_str(&mut self, s: &str) -> (r: Result<(), ConversionError>) {
        match io_write_all(&mut self.writer, s) {
            Ok(()) => {
                self.log = Ghost(self.log@ + s.spec_bytes());
                Ok(())
            },
            Err(_) => Err(ConversionError::Sink),
        }
    }
}

impl WriteFmt for IoWriter<Vec<u8>> {
    open spec fn sunk(&self) -> Seq<u8> {
        self.log@
    }

    /// An in-memory sink cannot fail: the write always succeeds.
    fn write_str(&mut self, s: &str) -> (r: Result<(), ConversionError>)
        ensures
            r is Ok,
    {
        self.writer.extend_from_slice(s.as_bytes());
        self.log = Ghost(self.log@ + s.spec_bytes());
        Ok(())
    }
}

/// A sink over any text-oriented writer.
pub struct FmtWriter<W> {
    pub writer: W,
    pub log: Ghost<Seq<u8>>,
}

impl<W> FmtWriter<W> {
    pub fn new(writer: W) -> (r: Self)
        ensures
            r.log@ == Seq::<u8>::empty(),
    {
        FmtWriter { writer, log: Ghost(Seq::empty()) }
    }

    pub fn into_inner(self) -> W {
        self.writer
    }
}

impl WriteFmt for FmtWriter<String> {
    open spec fn sunk(&self) -> Seq<u8> {
        self.log@
    }

    /// An in-memory sink cannot fail: the write always succeeds.
    fn write_str(&mut self, s: &str) -> (r: Result<(), ConversionError>)
        ensures
            r is Ok,
    {
        self.writer.push_str(s);
        self.log = Ghost(self.log@ + s.spec_bytes());
        Ok(())
    }
}

/// Relies on String::from_utf8: it succeeds exactly on valid UTF-8, and the
/// string then holds exactly the given bytes.
#[verifier::external_body]
pub(crate) fn bytes_to_string(v: Vec<u8>) -> (r: Option<String>)
    ensures
        (r is Some) == vstd::utf8::valid_utf8(v@),
        r matches Some(s) ==> vstd::utf8::encode_utf8(s@) == v@,
{
    match String::from_utf8(v) {
        Ok(s) => Some(s),
        Err(_) => None,
    }
}

} // verus!

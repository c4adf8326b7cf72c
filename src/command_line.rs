//! The command line handed to the next image: read from an optional UTF-8
//! configuration file, bounded, re-encoded as NUL-terminated UCS-2, with a
//! fixed fallback whenever the file is absent or of no use.

use vstd::prelude::*;
use vstd::string::StrSliceExecFns;
use vstd::utf8::{decode_first_scalar, decode_utf8, pop_first_scalar, valid_utf8};

verus! {

/// Capacity of the command-line buffer, in bytes read from the file and in
/// 16-bit units of the encoded string.
pub const CAPACITY: usize = 16384;

/// Most bytes read from the configuration file: two are kept back for the
/// terminator.
pub const MAX_READ: usize = 16382;

/// Name of the configuration file at the root of the boot volume.
pub const CMDLINE_PATH: &'static str = "\\cmdline.txt";

/// Command line used whenever the configuration file gives none.
pub const FALLBACK_CMDLINE: &'static str = "initrd=\\zebrafish-initrd";

/// What became of the attempt to read the configuration file, step by step:
/// the first step that did not go through, or the bytes that the read gave.
pub enum ConfigFile {
    /// The root directory of the volume could not be opened.
    VolumeUnavailable,
    /// The file could not be opened.
    Missing,
    /// The file was opened, but its metadata could not be read.
    MetadataUnavailable,
    /// The file is not a regular file.
    NotRegular,
    /// The read failed.
    ReadFailed,
    /// The bytes that the read returned.
    Contents(Vec<u8>),
}

/// The conditions under which no command line can be produced.
#[derive(Clone, Copy, Debug, PartialEq, Eq)]
pub enum CmdlineError {
    /// The metadata of a file that was opened could not be read.
    Metadata,
    /// Reading a file that was opened failed.
    Read,
    /// The file's content is not UTF-8.
    InvalidUtf8,
    /// The text holds a NUL or a character outside the basic plane, or is too
    /// long for the buffer.
    NotUcs2,
}

/// A NUL-terminated UCS-2 command line.
pub struct CommandLine {
    units: Vec<u16>,
}

impl View for CommandLine {
    type V = Seq<u16>;

    /// The code units, the terminating NUL included.
    closed spec fn view(&self) -> Seq<u16> {
        self.units@
    }
}

/// A character that one UCS-2 code unit carries: in the basic plane, and not NUL.
pub open spec fn is_ucs2_char(c: char) -> bool {
    0 < (c as u32) < 0x10000
}

/// Every character of `t` is a UCS-2 character.
pub open spec fn all_ucs2(t: Seq<char>) -> bool {
    forall|i: int| 0 <= i < t.len() ==> is_ucs2_char(#[trigger] t[i])
}

/// The code units of `t`, one per character.
pub open spec fn ucs2_units(t: Seq<char>) -> Seq<u16> {
    t.map_values(|c: char| (c as u32) as u16)
}

/// `t` encoded as UCS-2 and terminated by NUL, if it can be and fits the buffer.
pub open spec fn text_command_line(t: Seq<char>) -> Option<Seq<u16>> {
    if all_ucs2(t) && t.len() < CAPACITY {
        Some(ucs2_units(t).push(0u16))
    } else {
        None
    }
}

/// The fallback command line, encoded and terminated.
pub open spec fn fallback_units() -> Seq<u16> {
    ucs2_units(FALLBACK_CMDLINE@).push(0u16)
}

/// The part of a read's output that is used: at most `MAX_READ` bytes.
pub open spec fn read_region(b: Seq<u8>) -> Seq<u8> {
    if b.len() <= MAX_READ {
        b
    } else {
        b.take(MAX_READ as int)
    }
}

/// The command line for the bytes `b` that the read returned: the fallback
/// when nothing was read; else the UTF-8 text of the bytes, encoded.
pub open spec fn content_command_line(b: Seq<u8>) -> Result<Seq<u16>, CmdlineError> {
    let r = read_region(b);
    if r.len() == 0 {
        Ok(fallback_units())
    } else if !valid_utf8(r) {
        Err(CmdlineError::InvalidUtf8)
    } else {
        match text_command_line(decode_utf8(r)) {
            Some(u) => Ok(u),
            None => Err(CmdlineError::NotUcs2),
        }
    }
}

/// The command line for each outcome of reading the configuration file.
pub open spec fn loaded_command_line(f: ConfigFile) -> Result<Seq<u16>, CmdlineError> {
    match f {
        ConfigFile::VolumeUnavailable => Ok(fallback_units()),
        ConfigFile::Missing => Ok(fallback_units()),
        ConfigFile::MetadataUnavailable => Err(CmdlineError::Metadata),
        ConfigFile::NotRegular => Ok(fallback_units()),
        ConfigFile::ReadFailed => Err(CmdlineError::Read),
        ConfigFile::Contents(b) => content_command_line(b@),
    }
}

/// `r` is the command line `spec`, or the error it names.
pub open spec fn result_is(r: Result<CommandLine, CmdlineError>, spec: Result<Seq<u16>, CmdlineError>) -> bool {
    match r {
        Ok(c) => spec == Ok::<Seq<u16>, CmdlineError>(c@),
        Err(e) => spec == Err::<Seq<u16>, CmdlineError>(e),
    }
}

/// Relies on core::str::from_utf8: the text of the bytes when they are valid
/// UTF-8, and nothing otherwise.
#[verifier::external_body]
fn utf8_text(b: &[u8]) -> (r: Option<&str>)
    ensures
        r is Some <==> valid_utf8(b@),
        r is Some ==> r->0@ == decode_utf8(b@),
{
    core::str::from_utf8(b).ok()
}

/// Relies on uefi's CStr16::from_str_with_buf: writes the UTF-16 units of
/// `text` and a NUL unit to the start of `buf`, and accepts the result only
/// when every unit is a UCS-2 character other than NUL and all of it fits.
#[verifier::external_body]
fn ucs2_into(text: &str, buf: &mut Vec<u16>) -> (r: bool)
    ensures
        final(buf)@.len() == old(buf)@.len(),
        r == (all_ucs2(text@) && text@.len() < old(buf)@.len()),
        r ==> final(buf)@.take(text@.len() as int + 1) == ucs2_units(text@).push(0u16),
{
    uefi::CStr16::from_str_with_buf(text, buf.as_mut_slice()).is_ok()
}

impl CommandLine {
    /// NUL-terminated, with no NUL before the end, and within the buffer.
    pub open spec fn wf(&self) -> bool {
        &&& 1 <= self@.len() <= CAPACITY
        &&& self@.last() == 0
        &&& forall|i: int| 0 <= i < self@.len() - 1 ==> #[trigger] self@[i] != 0
    }

    /// The code units, the terminating NUL included.
    pub fn units(&self) -> (r: &[u16])
        ensures
            r@ == self@,
    {
        self.units.as_slice()
    }

    /// The number of code units before the terminating NUL.
    pub fn content_len(&self) -> (r: usize)
        requires
            self.wf(),
        ensures
            r == self@.len() - 1,
    {
        self.units.len() - 1
    }

    /// The size in bytes of the text handed over as load options: two bytes
    /// for each code unit before the terminator.
    pub fn load_options_size(&self) -> (r: u32)
        requires
            self.wf(),
        ensures
            r == 2 * (self@.len() - 1),
    {
        (2 * (self.units.len() - 1)) as u32
    }
}

/// The fallback, and no error, comes when the volume cannot be opened, when
/// the file cannot be opened, when it is not a regular file, and when the read
/// gives no byte.
pub proof fn lemma_fallback_outcomes(f: ConfigFile)
    requires
        f is VolumeUnavailable || f is Missing || f is NotRegular || (f matches ConfigFile::Contents(b)
            && b@.len() == 0),
    ensures
        loaded_command_line(f) == Ok::<Seq<u16>, CmdlineError>(fallback_units()),
{
}

/// Bytes that are all ASCII characters other than NUL.
pub open spec fn is_plain_ascii(b: Seq<u8>) -> bool {
    forall|i: int| 0 <= i < b.len() ==> 0 < #[trigger] b[i] < 0x80
}

/// Each byte of `b` as a 16-bit code unit.
pub open spec fn widened(b: Seq<u8>) -> Seq<u16> {
    b.map_values(|x: u8| x as u16)
}

/// ASCII bytes are valid UTF-8, one character each with the byte's value.
proof fn lemma_ascii_text(b: Seq<u8>)
    requires
        is_plain_ascii(b),
    ensures
        valid_utf8(b),
        decode_utf8(b).len() == b.len(),
        forall|i: int| 0 <= i < b.len() ==> #[trigger] decode_utf8(b)[i] as u32 == b[i] as u32,
    decreases b.len(),
{
    if b.len() > 0 {
        let x: u8 = b[0];
        assert(x & 0x7f == x) by (bit_vector)
            requires
                x < 0x80,
        ;
        assert(decode_first_scalar(b) == x as u32);
        let rest = pop_first_scalar(b);
        assert(rest =~= b.subrange(1, b.len() as int));
        assert forall|i: int| 0 <= i < rest.len() implies 0 < #[trigger] rest[i] < 0x80 by {
            assert(rest[i] == b[i + 1]);
        }
        lemma_ascii_text(rest);
        let t = decode_utf8(b);
        assert(t == seq![(x as u32) as char] + decode_utf8(rest));
        assert forall|i: int| 0 <= i < b.len() implies #[trigger] t[i] as u32 == b[i] as u32 by {
            if i > 0 {
                assert(t[i] == decode_utf8(rest)[i - 1]);
                assert(rest[i - 1] == b[i]);
            }
        }
    }
}

/// Non-empty ASCII content within the read limit, NUL excluded, comes
/// through unchanged: one code unit per byte, then the terminating NUL.
pub proof fn lemma_ascii_pass_through(b: Seq<u8>)
    requires
        0 < b.len() <= MAX_READ,
        is_plain_ascii(b),
    ensures
        content_command_line(b) == Ok::<Seq<u16>, CmdlineError>(widened(b).push(0u16)),
{
    lemma_ascii_text(b);
    let t = decode_utf8(b);
    assert forall|i: int| 0 <= i < t.len() implies is_ucs2_char(#[trigger] t[i]) by {
        assert(t[i] as u32 == b[i] as u32);
    }
    assert(ucs2_units(t) =~= widened(b));
}

/// A file of at least `MAX_READ` bytes of ASCII text, NUL excluded, gives a
/// command line of its first `MAX_READ` bytes, one unit each, and the
/// terminating NUL.
pub proof fn lemma_truncation_boundary(b: Seq<u8>)
    requires
        b.len() >= MAX_READ,
        is_plain_ascii(b),
    ensures
        content_command_line(b) == Ok::<Seq<u16>, CmdlineError>(
            widened(b.take(MAX_READ as int)).push(0u16),
        ),
        widened(b.take(MAX_READ as int)).push(0u16).len() == MAX_READ + 1,
{
    let r = b.take(MAX_READ as int);
    assert forall|i: int| 0 <= i < r.len() implies 0 < #[trigger] r[i] < 0x80 by {
        assert(r[i] == b[i]);
    }
    lemma_ascii_pass_through(r);
    assert(read_region(r) == r);
    assert(read_region(b) == r);
}

proof fn lemma_encoded_wf(t: Seq<char>)
    requires
        all_ucs2(t),
    ensures
        forall|i: int| 0 <= i < t.len() ==> #[trigger] ucs2_units(t)[i] != 0,
{
    assert forall|i: int| 0 <= i < t.len() implies #[trigger] ucs2_units(t)[i] != 0 by {
        assert(is_ucs2_char(t[i]));
        assert(ucs2_units(t)[i] == (t[i] as u32) as u16);
    }
}

fn zeroed(n: usize) -> (r: Vec<u16>)
    ensures
        r@.len() == n,
{
    let mut v: Vec<u16> = Vec::new();
    while v.len() < n
        invariant
            v@.len() <= n,
        decreases n - v@.len(),
    {
        v.push(0u16);
    }
    v
}

/// Encodes `text` as a command line: its characters as UCS-2 code units and
/// a NUL unit. Fails when a character is NUL or outside the basic plane, or
/// when the text does not fit the buffer.
pub fn command_line_from_text(text: &str) -> (r: Result<CommandLine, CmdlineError>)
    ensures
        result_is(r, text_command_line(text@).ok_or(CmdlineError::NotUcs2)),
        r matches Ok(c) ==> c.wf(),
{
    let n = text.unicode_len();
    let mut buf = zeroed(CAPACITY);
    if ucs2_into(text, &mut buf) {
        buf.truncate(n + 1);
        proof {
            lemma_encoded_wf(text@);
            assert(buf@ =~= ucs2_units(text@).push(0u16));
        }
        Ok(CommandLine { units: buf })
    } else {
        Err(CmdlineError::NotUcs2)
    }
}

/// The UCS-2 code units of `text`, without a terminator, when every character
/// is UCS-2 and the text fits the buffer.
pub fn encode_ucs2(text: &str) -> (r: Option<Vec<u16>>)
    ensures
        r is Some <==> text_command_line(text@) is Some,
        r matches Some(u) ==> u@ == ucs2_units(text@),
{
    match command_line_from_text(text) {
        Ok(c) => {
            let mut u = c.units;
            u.pop();
            assert(u@ =~= ucs2_units(text@));
            Some(u)
        },
        Err(_) => None,
    }
}

/// The fallback command line.
pub fn fallback_command_line() -> (r: CommandLine)
    ensures
        r@ == fallback_units(),
        r.wf(),
{
    proof {
        reveal_strlit("initrd=\\zebrafish-initrd");
    }
    assert(FALLBACK_CMDLINE@.len() == 24);
    assert(all_ucs2(FALLBACK_CMDLINE@));
    let r = command_line_from_text(FALLBACK_CMDLINE);
    assert(r is Ok);
    r.unwrap()
}

/// How many bytes to read from a file of `file_size` bytes: all of them, but
/// never more than `MAX_READ`.
pub fn read_size(file_size: u64) -> (r: usize)
    ensures
        r == if file_size <= MAX_READ { file_size as int } else { MAX_READ as int },
{
    if file_size <= MAX_READ as u64 {
        file_size as usize
    } else {
        MAX_READ
    }
}

/// The command line for the bytes that reading the configuration file gave:
/// the fallback when there are none; else their first `MAX_READ` bytes read
/// as UTF-8 and encoded as UCS-2.
pub fn command_line_from_content(content: &[u8]) -> (r: Result<CommandLine, CmdlineError>)
    ensures
        result_is(r, content_command_line(content@)),
        r matches Ok(c) ==> c.wf(),
{
    let n = read_size(content.len() as u64);
    if n == 0 {
        return Ok(fallback_command_line());
    }
    let region = vstd::slice::slice_subrange(content, 0, n);
    assert(region@ =~= read_region(content@));
    match utf8_text(region) {
        Some(text) => command_line_from_text(text),
        None => Err(CmdlineError::InvalidUtf8),
    }
}

/// The command line for the outcome of reading the configuration file. The
/// fallback stands in when the volume or the file cannot be opened, when the
/// file is not a regular file, and when it is empty. A file that was opened
/// but whose metadata or content cannot be read is an error: the file system
/// is then in a state that is not expected, unlike a file that is merely
/// absent.
pub fn load_command_line(file: &ConfigFile) -> (r: Result<CommandLine, CmdlineError>)
    ensures
        result_is(r, loaded_command_line(*file)),
        r matches Ok(c) ==> c.wf(),
{
    match file {
        ConfigFile::VolumeUnavailable => Ok(fallback_command_line()),
        ConfigFile::Missing => Ok(fallback_command_line()),
        ConfigFile::MetadataUnavailable => Err(CmdlineError::Metadata),
        ConfigFile::NotRegular => Ok(fallback_command_line()),
        ConfigFile::ReadFailed => Err(CmdlineError::Read),
        ConfigFile::Contents(bytes) => command_line_from_content(bytes.as_slice()),
    }
}

} // verus!

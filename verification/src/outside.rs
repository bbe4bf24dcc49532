//! The calls into other crates, each with what is relied upon of it.
use base64::Engine;
use vstd::prelude::*;

verus! {

/// One line of a directory listing, as the `LIST` parser reads it.
#[derive(Debug)]
pub struct ListedFile {
    pub name: String,
    pub is_directory: bool,
    pub is_symlink: bool,
    pub size: usize,
}

/// What a [`ListedFile`] says.
pub struct ListedFileModel {
    pub name: Seq<char>,
    pub is_directory: bool,
    pub is_symlink: bool,
    pub size: int,
}

impl ListedFile {
    pub open spec fn model(self) -> ListedFileModel {
        ListedFileModel {
            name: self.name@,
            is_directory: self.is_directory,
            is_symlink: self.is_symlink,
            size: self.size as int,
        }
    }
}

/// What a parser makes of a line, over the times at which it may run.
pub enum PosixReading {
    /// It fails, whenever it runs.
    Never,
    /// It succeeds, whenever it runs, with this.
    Always(ListedFileModel),
    /// It succeeds at some times, with this: the line gives a day without a year,
    /// and not every year has the day.
    AtTimes(ListedFileModel),
}

/// What the POSIX parser of `LIST` lines makes of `line`, on a 64-bit machine.
pub uninterp spec fn posix_reading(line: Seq<char>) -> PosixReading;

/// What the DOS parser of `LIST` lines makes of `line`, on a 64-bit machine: none
/// where it fails.
pub uninterp spec fn dos_listing(line: Seq<char>) -> Option<ListedFileModel>;

/// The standard base64 text of `data`, with padding.
pub uninterp spec fn base64_text(data: Seq<u8>) -> Seq<char>;

/// The bytes that a standard base64 text stands for, or what is wrong with it.
pub uninterp spec fn base64_bytes(text: Seq<char>) -> Result<Seq<u8>, Seq<char>>;

/// The string that the JSON object in `payload` holds under `key`, where
/// `payload` is such an object and holds a string there.
pub uninterp spec fn json_string_field(payload: Seq<u8>, key: Seq<char>) -> Option<Seq<char>>;

/// [`suppaftp::list::ListParser::parse_posix`].
///
/// Relied upon: name, type and size come from the line alone, and the name is a
/// part of the line. Whether the line is read at all depends on the line alone but
/// for two things. A line that gives day and time without a year is completed by
/// the current year, and fails where that year does not have the day; and a size
/// fails that does not fit into a `usize`, so that a machine with fewer than 64
/// bits may fail where another does not. What the outcome is at a given time is not
/// said.
#[verifier::external_body]
pub(crate) fn parse_posix(line: &str) -> (file: Option<ListedFile>)
    ensures
        match posix_reading(line@) {
            PosixReading::Never => file is None,
            PosixReading::Always(model) => (file matches Some(f) ==> f.model() == model) && (
            usize::BITS == 64 ==> file is Some),
            PosixReading::AtTimes(model) => file matches Some(f) ==> f.model() == model,
        },
        file matches Some(f) ==> crate::text::contains(line@, f.name@),
{
    suppaftp::list::ListParser::parse_posix(line).ok().map(
        |f| ListedFile {
            name: f.name().to_owned(),
            is_directory: f.is_directory(),
            is_symlink: f.is_symlink(),
            size: f.size(),
        },
    )
}

/// [`suppaftp::list::ListParser::parse_dos`].
///
/// Relied upon: the outcome depends on the line alone on a 64-bit machine, and the
/// name is a part of the line. On a smaller machine the outcome is the same, but
/// that a size fails that does not fit into a `usize`.
#[verifier::external_body]
pub(crate) fn parse_dos(line: &str) -> (file: Option<ListedFile>)
    ensures
        file matches Some(f) ==> dos_listing(line@) == Some(f.model()),
        file matches Some(f) ==> crate::text::contains(line@, f.name@),
        usize::BITS == 64 ==> (file is None ==> dos_listing(line@) is None),
{
    suppaftp::list::ListParser::parse_dos(line).ok().map(
        |f| ListedFile {
            name: f.name().to_owned(),
            is_directory: f.is_directory(),
            is_symlink: f.is_symlink(),
            size: f.size(),
        },
    )
}

/// `encode` of [`base64::engine::general_purpose::STANDARD`].
///
/// Relied upon: the text depends on the bytes alone, and the same engine decodes it
/// to the same bytes.
#[verifier::external_body]
pub(crate) fn base64_encode(data: &[u8]) -> (encoded: String)
    ensures
        encoded@ == base64_text(data@),
        base64_bytes(encoded@) is Ok && base64_bytes(encoded@)->Ok_0 == data@,
{
    base64::engine::general_purpose::STANDARD.encode(data)
}

/// What a decoded text comes to.
pub open spec fn decoded_model(r: Result<Vec<u8>, String>) -> Result<Seq<u8>, Seq<char>> {
    match r {
        Ok(bytes) => Ok(bytes@),
        Err(reason) => Err(reason@),
    }
}

/// `decode` of [`base64::engine::general_purpose::STANDARD`], with the printed
/// error.
///
/// Relied upon: the bytes, or the error, depend on the text alone.
#[verifier::external_body]
pub(crate) fn base64_decode(text: &str) -> (bytes: Result<Vec<u8>, String>)
    ensures
        decoded_model(bytes) == base64_bytes(text@),
{
    base64::engine::general_purpose::STANDARD.decode(text).map_err(|e| e.to_string())
}

/// [`serde_json::from_slice`] into a [`serde_json::Value`], and the string that the
/// value's `get` finds under `key`.
///
/// Relied upon: the string depends on the bytes and the key alone. Bytes that are
/// not JSON, a value that is no object, a key that the object does not have, and a
/// value under it that is no string have none.
#[verifier::external_body]
pub(crate) fn json_string(payload: &[u8], key: &str) -> (value: Option<String>)
    ensures
        crate::arguments::optional_chars(value) == json_string_field(payload@, key@),
{
    let object: serde_json::Value = serde_json::from_slice(payload).ok()?;
    object.get(key)?.as_str().map(str::to_owned)
}

/// [`std::str::from_utf8`].
///
/// Relied upon: it succeeds exactly on valid UTF-8, and gives the text whose UTF-8
/// the bytes are.
#[verifier::external_body]
pub(crate) fn utf8_text(data: &[u8]) -> (text: Option<&str>)
    ensures
        text is Some <==> vstd::utf8::valid_utf8(data@),
        text matches Some(s) ==> vstd::utf8::encode_utf8(s@) == data@,
{
    std::str::from_utf8(data).ok()
}

} // verus!

//! Reading an imported document: choosing its text encoding, flattening
//! Markdown to plain text, and deciding what a file of a given size, name
//! and extension yields.

use vstd::prelude::*;
use vstd::string::*;
use vstd::utf8::*;
use crate::llm::chat::text_option;
use crate::llm::str_option;
use crate::text::{
    ascii_lower, ascii_lowercase, chars_of, is_ascii_text, is_part_of, is_white_space,
    lemma_trim_has_no_outer_white_space, lowercase, lowercase_known, same_text, to_lowercase, trim,
    trim_spec,
};
use pulldown_cmark::{Event, Parser, Tag, TagEnd};

verus! {

broadcast use vstd::string::group_string_axioms;

/// The largest file, in bytes, that is accepted for import.
pub const MAX_FILE_SIZE: usize = 10 * 1024 * 1024;

#[verifier::external_type_specification]
#[verifier::external_body]
pub struct ExIoError(std::io::Error);

/// Why a file could not be imported.
#[derive(Debug)]
pub enum ParseError {
    FileTooLarge,
    UnsupportedType(String),
    EncodingError(String),
    IoError(std::io::Error),
}

/// The text extracted from an imported file.
#[derive(Debug)]
pub struct ParseResult {
    pub content: String,
    pub file_name: String,
    pub file_type: String,
    pub warning: Option<String>,
}

/// The legacy Chinese encodings tried when a file is not UTF-8.
#[derive(Clone, Copy, Debug, PartialEq, Eq, Structural)]
pub enum LegacyEncoding {
    Gbk,
    Big5,
}

/// What `Encoding::decode` of encoding_rs gives for `bytes` in the given
/// encoding (with byte-order-mark sniffing): the decoded text and whether
/// malformed sequences had to be replaced.
pub uninterp spec fn legacy_decoding(encoding: LegacyEncoding, bytes: Seq<u8>) -> (Seq<char>, bool);

/// What `String::from_utf8_lossy` gives for `bytes`.
pub uninterp spec fn utf8_lossy(bytes: Seq<u8>) -> Seq<char>;

/// Calls `std::str::from_utf8`, which succeeds exactly on valid UTF-8 and
/// then yields the decoded characters.
#[verifier::external_body]
fn utf8_text(bytes: &[u8]) -> (r: Option<String>)
    ensures
        r is Some <==> valid_utf8(bytes@),
        r matches Some(s) ==> s@ == decode_utf8(bytes@),
{
    match std::str::from_utf8(bytes) {
        Ok(s) => Some(String::from(s)),
        Err(_) => None,
    }
}

/// Whether decoding `bytes` into a `String` stays within what one allocation
/// may hold (`isize::MAX` bytes): each byte decodes to at most three bytes of
/// UTF-8, and the decoders ask for a few bytes of slack.
pub open spec fn decodable(bytes: Seq<u8>) -> bool {
    3 * bytes.len() + 16 <= isize::MAX
}

/// Calls encoding_rs's `Encoding::decode` with the GBK or Big5 encoding;
/// the result is `legacy_decoding` of the arguments. The call asks for at
/// most three output bytes per input byte and a few more, and panics when
/// that capacity passes `isize::MAX`, which `decodable` rules out.
#[verifier::external_body]
fn legacy_decode(encoding: LegacyEncoding, bytes: &[u8]) -> (r: (String, bool))
    requires
        decodable(bytes@),
    ensures
        (r.0@, r.1) == legacy_decoding(encoding, bytes@),
{
    let table = match encoding {
        LegacyEncoding::Gbk => encoding_rs::GBK,
        LegacyEncoding::Big5 => encoding_rs::BIG5,
    };
    let (text, _, had_errors) = table.decode(bytes);
    (text.into_owned(), had_errors)
}

/// Calls `String::from_utf8_lossy`; the result is `utf8_lossy` of the bytes.
/// Each replaced byte grows to three bytes, so the output must fit one
/// allocation, as `decodable` ensures.
#[verifier::external_body]
fn lossy_text(bytes: &[u8]) -> (r: String)
    requires
        decodable(bytes@),
    ensures
        r@ == utf8_lossy(bytes@),
{
    String::from_utf8_lossy(bytes).into_owned()
}

/// The text of a file's bytes: UTF-8 when they are valid UTF-8, else GBK or
/// else Big5 when that decodes without errors, else lossy UTF-8.
pub open spec fn decoded_text(bytes: Seq<u8>) -> Seq<char> {
    if valid_utf8(bytes) {
        decode_utf8(bytes)
    } else if !legacy_decoding(LegacyEncoding::Gbk, bytes).1 {
        legacy_decoding(LegacyEncoding::Gbk, bytes).0
    } else if !legacy_decoding(LegacyEncoding::Big5, bytes).1 {
        legacy_decoding(LegacyEncoding::Big5, bytes).0
    } else {
        utf8_lossy(bytes)
    }
}

/// Decodes a file's bytes, trying UTF-8, then GBK, then Big5, and falling
/// back to lossy UTF-8.
pub fn detect_and_decode(bytes: &[u8]) -> (r: String)
    requires
        valid_utf8(bytes@) || decodable(bytes@),
    ensures
        r@ == decoded_text(bytes@),
{
    if let Some(s) = utf8_text(bytes) {
        return s;
    }
    let (gbk, gbk_errors) = legacy_decode(LegacyEncoding::Gbk, bytes);
    if !gbk_errors {
        return gbk;
    }
    let (big5, big5_errors) = legacy_decode(LegacyEncoding::Big5, bytes);
    if !big5_errors {
        return big5;
    }
    lossy_text(bytes)
}

/// A Markdown parser event, as far as plain-text extraction reads it.
#[derive(Debug)]
pub enum MdEvent {
    CodeBlockStart,
    CodeBlockEnd,
    Text(String),
    SoftBreak,
    HardBreak,
    Other,
}

/// The mathematical value of an `MdEvent`.
pub enum MdToken {
    CodeBlockStart,
    CodeBlockEnd,
    Text(Seq<char>),
    SoftBreak,
    HardBreak,
    Other,
}

impl View for MdEvent {
    type V = MdToken;

    open spec fn view(&self) -> MdToken {
        match self {
            MdEvent::CodeBlockStart => MdToken::CodeBlockStart,
            MdEvent::CodeBlockEnd => MdToken::CodeBlockEnd,
            MdEvent::Text(t) => MdToken::Text(t@),
            MdEvent::SoftBreak => MdToken::SoftBreak,
            MdEvent::HardBreak => MdToken::HardBreak,
            MdEvent::Other => MdToken::Other,
        }
    }
}

/// The tokens of a sequence of events.
pub open spec fn tokens_of(events: Seq<MdEvent>) -> Seq<MdToken> {
    events.map_values(|e: MdEvent| e@)
}

/// The events that pulldown-cmark's `Parser::new` yields for `md`, seen as
/// tokens.
pub uninterp spec fn markdown_events(md: Seq<char>) -> Seq<MdToken>;

/// Runs pulldown-cmark's `Parser::new` over `md` and maps each event to an
/// `MdEvent`; the result is `markdown_events` of the text.
#[verifier::external_body]
fn markdown_event_list(md: &str) -> (events: Vec<MdEvent>)
    ensures
        tokens_of(events@) == markdown_events(md@),
{
    let mut events = Vec::new();
    for event in Parser::new(md) {
        events.push(match event {
            Event::Start(Tag::CodeBlock(_)) => MdEvent::CodeBlockStart,
            Event::End(TagEnd::CodeBlock) => MdEvent::CodeBlockEnd,
            Event::Text(text) => MdEvent::Text(text.into_string()),
            Event::SoftBreak => MdEvent::SoftBreak,
            Event::HardBreak => MdEvent::HardBreak,
            _ => MdEvent::Other,
        });
    }
    events
}

/// The text gathered from `events`, and whether they leave a code block
/// open: text outside code blocks is kept with a line break after each
/// piece, each line break and each code block's end adds a line break, and
/// everything else is dropped.
pub open spec fn gather_text(events: Seq<MdToken>) -> (Seq<char>, bool)
    decreases events.len(),
{
    if events.len() == 0 {
        (seq![], false)
    } else {
        let (text, in_code) = gather_text(events.drop_last());
        match events.last() {
            MdToken::CodeBlockStart => (text, true),
            MdToken::CodeBlockEnd => (text.push('\n'), false),
            MdToken::Text(t) => if in_code {
                (text, in_code)
            } else {
                (text + t + seq!['\n'], in_code)
            },
            MdToken::SoftBreak => (text.push('\n'), in_code),
            MdToken::HardBreak => (text.push('\n'), in_code),
            MdToken::Other => (text, in_code),
        }
    }
}

/// The plain text of a Markdown document.
pub open spec fn markdown_plain_text(md: Seq<char>) -> Seq<char> {
    trim_spec(gather_text(markdown_events(md)).0)
}

/// The plain text carried by a sequence of Markdown events, trimmed.
pub fn plain_text_from_events(events: &Vec<MdEvent>) -> (r: String)
    ensures
        r@ == trim_spec(gather_text(tokens_of(events@)).0),
{
    let ghost tokens = tokens_of(events@);
    let mut text = String::new();
    let mut in_code = false;
    let newline = "\n";
    proof {
        reveal_strlit("\n");
    }
    let mut i: usize = 0;
    while i < events.len()
        invariant
            tokens == tokens_of(events@),
            i <= events@.len(),
            newline@ == seq!['\n'],
            (text@, in_code) == gather_text(tokens.take(i as int)),
        decreases events@.len() - i,
    {
        assert(tokens.take(i + 1).drop_last() =~= tokens.take(i as int));
        assert(tokens.take(i + 1).last() == events@[i as int]@);
        match &events[i] {
            MdEvent::CodeBlockStart => {
                in_code = true;
            },
            MdEvent::CodeBlockEnd => {
                in_code = false;
                text.append(newline);
            },
            MdEvent::Text(t) => {
                if !in_code {
                    text.append(t.as_str());
                    text.append(newline);
                }
            },
            MdEvent::SoftBreak => {
                text.append(newline);
            },
            MdEvent::HardBreak => {
                text.append(newline);
            },
            MdEvent::Other => {},
        }
        i = i + 1;
    }
    assert(tokens.take(events@.len() as int) =~= tokens);
    trim(text.as_str()).to_string()
}

/// The plain text of a Markdown document: the text outside code blocks,
/// one piece per line, trimmed.
pub fn markdown_to_plain_text(md: &str) -> (r: String)
    ensures
        r@ == markdown_plain_text(md@),
{
    let events = markdown_event_list(md);
    plain_text_from_events(&events)
}

/// Whether a file of `file_size` bytes exceeds the import limit.
pub open spec fn too_large(file_size: u64) -> bool {
    file_size > MAX_FILE_SIZE
}

/// Refuses a file larger than `MAX_FILE_SIZE`.
pub fn check_file_size(file_size: u64) -> (r: Result<(), ParseError>)
    ensures
        r is Ok <==> !too_large(file_size),
        r matches Err(e) ==> e is FileTooLarge,
{
    if file_size > MAX_FILE_SIZE as u64 {
        Err(ParseError::FileTooLarge)
    } else {
        Ok(())
    }
}

/// What importing a file of the given size, file name, lowercase extension
/// and decoded text yields.
pub open spec fn parse_outcome(
    r: Result<ParseResult, ParseError>,
    file_size: u64,
    file_name: Seq<char>,
    extension: Seq<char>,
    text: Seq<char>,
) -> bool {
    if too_large(file_size) {
        r matches Err(ParseError::FileTooLarge)
    } else if extension == "md"@ || extension == "markdown"@ {
        &&& r matches Ok(pr)
        &&& pr.content@ == markdown_plain_text(text)
        &&& pr.file_name@ == file_name
        &&& pr.file_type@ == "markdown"@
        &&& pr.warning is None
    } else if extension == "txt"@ {
        &&& r matches Ok(pr)
        &&& pr.content@ == text
        &&& pr.file_name@ == file_name
        &&& pr.file_type@ == "text"@
        &&& pr.warning is None
    } else {
        r matches Err(ParseError::UnsupportedType(e)) && e@ == extension
    }
}

/// Builds the import result of a file from its size, its file name, its
/// extension (already lowercase) and its decoded text.
pub fn parse_decoded(file_size: u64, file_name: String, extension: String, text: String) -> (r:
    Result<ParseResult, ParseError>)
    ensures
        parse_outcome(r, file_size, file_name@, extension@, text@),
{
    if let Err(e) = check_file_size(file_size) {
        return Err(e);
    }
    let (content, file_type) = if same_text(extension.as_str(), "md") || same_text(
        extension.as_str(),
        "markdown",
    ) {
        (markdown_to_plain_text(text.as_str()), String::from_str("markdown"))
    } else if same_text(extension.as_str(), "txt") {
        (text, String::from_str("text"))
    } else {
        return Err(ParseError::UnsupportedType(extension));
    };
    Ok(ParseResult { content, file_name, file_type, warning: None })
}

/// Whether `c` separates the parts of a path: '/' on every platform, and
/// '\' as well in the Windows reading.
pub open spec fn is_separator(c: char, windows: bool) -> bool {
    c == '/' || (windows && c == '\\')
}

/// The part of `path` after its last separator (all of it when it has
/// none).
pub open spec fn last_part(path: Seq<char>, windows: bool) -> Seq<char>
    decreases path.len(),
{
    if path.len() == 0 || is_separator(path.last(), windows) {
        seq![]
    } else {
        last_part(path.drop_last(), windows).push(path.last())
    }
}

/// The last part of `path` between separators that is neither empty nor
/// "."; none when there is no such part or that part is "..".
pub open spec fn last_name(path: Seq<char>, windows: bool) -> Option<Seq<char>>
    decreases path.len(),
{
    if path.len() == 0 {
        None
    } else if is_separator(path.last(), windows) || last_part(path, windows) == seq!['.'] {
        last_name(path.drop_last(), windows)
    } else if last_part(path, windows) == seq!['.', '.'] {
        None
    } else {
        Some(last_part(path, windows))
    }
}

/// Whether `path` opens with a drive such as "C:": an ASCII letter and ':'.
pub open spec fn has_drive(path: Seq<char>) -> bool {
    &&& path.len() >= 2
    &&& path[1] == ':'
    &&& (65 <= (path[0] as u32) <= 90 || 97 <= (path[0] as u32) <= 122)
}

/// The file name of `path` as Unix reads it: split at '/'.
pub open spec fn unix_name(path: Seq<char>) -> Option<Seq<char>> {
    last_name(path, false)
}

/// The file name of `path` as Windows reads it: a drive is dropped, and the
/// rest is split at '/' and '\'.
pub open spec fn windows_name(path: Seq<char>) -> Option<Seq<char>> {
    last_name(if has_drive(path) { path.skip(2) } else { path }, true)
}

/// A path whose only possible Windows prefix is a drive: it does not open
/// with two separators (the UNC, device and verbatim forms such as
/// "\\server\share" or "\\?\C:"), and a ':' as its second character
/// follows an ASCII letter.
pub open spec fn drive_or_no_prefix(path: Seq<char>) -> bool {
    &&& !(path.len() >= 2 && is_separator(path[0], true) && is_separator(path[1], true))
    &&& !(path.len() >= 2 && path[1] == ':' && !has_drive(path))
}

/// What holds on Unix and on Windows of the file name found in `path`: a
/// name is a non-empty run of the path's characters, and, for a path whose
/// only possible prefix is a drive, it is the Unix or the Windows reading.
pub open spec fn file_name_fits(path: Seq<char>, name: Option<Seq<char>>) -> bool {
    &&& (name matches Some(n) ==> n.len() > 0 && is_part_of(n, path))
    &&& (drive_or_no_prefix(path) ==> name == unix_name(path) || name == windows_name(path))
}

/// Calls `Path::file_name` on `path` and keeps the name as text. On Unix
/// and on Windows the name is a slice of the path made of one whole,
/// non-empty component, and the last component: separators are '/' (and on
/// Windows '\' as well, after a prefix such as "C:"), empty and "."
/// components after the first are skipped, and a last ".." gives no name.
/// Which name a path with a UNC, device or verbatim prefix gives on Windows
/// is left unsaid.
#[verifier::external_body]
fn path_file_name(path: &str) -> (r: Option<String>)
    ensures
        file_name_fits(path@, text_option(r)),
{
    match std::path::Path::new(path).file_name() {
        Some(name) => name.to_str().map(String::from),
        None => None,
    }
}

/// The index of the last '.' in `name`, or -1 when it has none.
pub open spec fn last_dot(name: Seq<char>) -> int
    decreases name.len(),
{
    if name.len() == 0 {
        -1
    } else if name.last() == '.' {
        name.len() - 1
    } else {
        last_dot(name.drop_last())
    }
}

/// The extension of a file name, by the rule of `Path::extension`: the part
/// after the last '.', unless the name has no '.' or its only '.' opens it.
pub open spec fn extension_spec(name: Seq<char>) -> Option<Seq<char>> {
    if last_dot(name) > 0 {
        Some(name.skip(last_dot(name) + 1))
    } else {
        None
    }
}

/// The extension of a file name: the part after its last '.', or none when
/// the name has no '.' or begins with its only '.'.
pub fn extension_of(name: &str) -> (r: Option<String>)
    ensures
        text_option(r) == extension_spec(name@),
{
    let v = chars_of(name);
    let mut i: usize = v.len();
    assert(v@.take(v@.len() as int) =~= v@);
    while i > 0 && v[i - 1] != '.'
        invariant
            v@ == name@,
            i <= v@.len(),
            last_dot(v@.take(i as int)) == last_dot(v@),
        decreases i,
    {
        assert(v@.take(i as int).drop_last() =~= v@.take(i - 1));
        i = i - 1;
    }
    if i <= 1 {
        assert(i == 1 ==> v@.take(1).last() == '.');
        None
    } else {
        assert(v@.take(i as int).last() == '.');
        assert(v@.skip(i as int) =~= v@.subrange(i as int, v@.len() as int));
        Some(name.substring_char(i, v.len()).to_string())
    }
}

/// The file name of an import, "unknown" when the path has none.
pub open spec fn name_or_unknown(name: Option<Seq<char>>) -> Seq<char> {
    match name {
        Some(n) => n,
        None => "unknown"@,
    }
}

/// The extension of an import, empty when the path has none.
pub open spec fn extension_or_empty(extension: Option<Seq<char>>) -> Seq<char> {
    match extension {
        Some(e) => e,
        None => seq![],
    }
}

/// What importing yields from the file name and extension found in a path,
/// the file's size and its bytes: the extension is lowered by
/// `str::to_lowercase`, with what is known of that lowering.
pub open spec fn parts_outcome(
    r: Result<ParseResult, ParseError>,
    file_size: u64,
    name: Option<Seq<char>>,
    extension: Option<Seq<char>>,
    bytes: Seq<u8>,
) -> bool {
    let e = extension_or_empty(extension);
    &&& lowercase_known(e)
    &&& parse_outcome(r, file_size, name_or_unknown(name), lowercase(e), decoded_text(bytes))
}

/// The extension found with a file name.
pub open spec fn extension_in(name: Option<Seq<char>>) -> Option<Seq<char>> {
    match name {
        Some(n) => extension_spec(n),
        None => None,
    }
}

/// What importing the file at `path`, of `file_size` bytes holding `bytes`,
/// yields: the outcome for the file name that the platform finds in the
/// path, whatever holds of it on every platform, and that name's extension.
pub open spec fn import_outcome(
    r: Result<ParseResult, ParseError>,
    path: Seq<char>,
    file_size: u64,
    bytes: Seq<u8>,
) -> bool {
    exists|name: Option<Seq<char>>|
        #![trigger file_name_fits(path, name)]
        file_name_fits(path, name) && parts_outcome(r, file_size, name, extension_in(name), bytes)
}

/// Imports a file from the file name and extension found in its path
/// (either may be missing), its size and its bytes: a file over
/// `MAX_FILE_SIZE` is refused; the extension, lowercased, picks Markdown,
/// text or an unsupported type; the file name is "unknown" when missing.
pub fn parse_parts(
    file_size: u64,
    file_name: Option<&str>,
    extension: Option<&str>,
    bytes: &[u8],
) -> (r: Result<ParseResult, ParseError>)
    requires
        too_large(file_size) || valid_utf8(bytes@) || decodable(bytes@),
    ensures
        parts_outcome(r, file_size, str_option(file_name), str_option(extension), bytes@),
{
    let raw_extension = match extension {
        Some(e) => e,
        None => "",
    };
    proof {
        reveal_strlit("");
        assert(raw_extension@ =~= extension_or_empty(str_option(extension)));
    }
    let lowered = to_lowercase(raw_extension);
    if let Err(e) = check_file_size(file_size) {
        return Err(e);
    }
    let name = match file_name {
        Some(n) => n.to_string(),
        None => String::from_str("unknown"),
    };
    assert(name@ == name_or_unknown(str_option(file_name)));
    let text = detect_and_decode(bytes);
    parse_decoded(file_size, name, lowered, text)
}

/// Imports the file at `path`, of `file_size` bytes, whose contents are
/// `bytes`: the file name is the last component of the path ("unknown" when
/// it has none) and the extension is the part of that name after its last
/// '.'; then `parse_parts` decides.
pub fn parse_file(path: &str, file_size: u64, bytes: &[u8]) -> (r: Result<ParseResult, ParseError>)
    requires
        too_large(file_size) || valid_utf8(bytes@) || decodable(bytes@),
    ensures
        import_outcome(r, path@, file_size, bytes@),
{
    let name = path_file_name(path);
    let extension = match &name {
        Some(n) => extension_of(n.as_str()),
        None => None,
    };
    let name_str = match &name {
        Some(n) => Some(n.as_str()),
        None => None,
    };
    let extension_str = match &extension {
        Some(e) => Some(e.as_str()),
        None => None,
    };
    let r = parse_parts(file_size, name_str, extension_str, bytes);
    assert(file_name_fits(path@, text_option(name)));
    assert(str_option(extension_str) == extension_in(text_option(name)));
    r
}

impl ParseError {
    /// The message that describes the error to the user.
    pub fn message(&self) -> (m: String)
        ensures
            self is FileTooLarge ==> m@ == "File too large: max 10MB allowed"@,
            self matches ParseError::UnsupportedType(t) ==> m@ == "Unsupported file type: "@ + t@,
            self matches ParseError::EncodingError(t) ==> m@ == "Encoding error: "@ + t@,
            self matches ParseError::IoError(e) ==> exists|d: String|
                #[trigger] to_string_from_display_ensures::<std::io::Error>(e, d) && m@
                    == "IO error: "@ + d@,
    {
        match self {
            ParseError::FileTooLarge => String::from_str("File too large: max 10MB allowed"),
            ParseError::UnsupportedType(t) => String::from_str("Unsupported file type: ").concat(
                t.as_str(),
            ),
            ParseError::EncodingError(t) => String::from_str("Encoding error: ").concat(t.as_str()),
            ParseError::IoError(e) => {
                let d = e.to_string();
                String::from_str("IO error: ").concat(d.as_str())
            },
        }
    }
}

impl From<std::io::Error> for ParseError {
    fn from(e: std::io::Error) -> (r: ParseError) {
        ParseError::IoError(e)
    }
}

impl vstd::std_specs::convert::FromSpecImpl<std::io::Error> for ParseError {
    open spec fn obeys_from_spec() -> bool {
        true
    }

    open spec fn from_spec(e: std::io::Error) -> ParseError {
        ParseError::IoError(e)
    }
}

/// Two import results agree on everything but the file name: equal content,
/// file type and warning, or the same error.
pub open spec fn same_import_but_name(
    r1: Result<ParseResult, ParseError>,
    r2: Result<ParseResult, ParseError>,
) -> bool {
    match (r1, r2) {
        (Ok(a), Ok(b)) => {
            &&& a.content@ == b.content@
            &&& a.file_type@ == b.file_type@
            &&& text_option(a.warning) == text_option(b.warning)
        },
        (Err(ParseError::FileTooLarge), Err(ParseError::FileTooLarge)) => true,
        (Err(ParseError::UnsupportedType(a)), Err(ParseError::UnsupportedType(b))) => a@ == b@,
        _ => false,
    }
}

/// Two import results are equal in every field.
pub open spec fn same_import(
    r1: Result<ParseResult, ParseError>,
    r2: Result<ParseResult, ParseError>,
) -> bool {
    &&& same_import_but_name(r1, r2)
    &&& (r1 matches Ok(a) ==> r2 matches Ok(b) && a.file_name@ == b.file_name@)
}

/// Law: importing from the same file name, extension, size and bytes twice
/// gives equal results.
pub proof fn lemma_parts_deterministic(
    r1: Result<ParseResult, ParseError>,
    r2: Result<ParseResult, ParseError>,
    file_size: u64,
    name: Option<Seq<char>>,
    extension: Option<Seq<char>>,
    bytes: Seq<u8>,
)
    requires
        parts_outcome(r1, file_size, name, extension, bytes),
        parts_outcome(r2, file_size, name, extension, bytes),
    ensures
        same_import(r1, r2),
{
}

/// The extension carried by a file name, empty when there is none.
pub open spec fn name_extension(name: Option<Seq<char>>) -> Seq<char> {
    extension_or_empty(extension_in(name))
}

/// Law: importing the same unchanged file twice gives equal results, but
/// for the file name, whenever the Unix and Windows readings of its path
/// give the same extension; and equal in every field when the two readings
/// give the same name.
pub proof fn lemma_import_deterministic(
    r1: Result<ParseResult, ParseError>,
    r2: Result<ParseResult, ParseError>,
    path: Seq<char>,
    file_size: u64,
    bytes: Seq<u8>,
)
    requires
        drive_or_no_prefix(path),
        import_outcome(r1, path, file_size, bytes),
        import_outcome(r2, path, file_size, bytes),
    ensures
        name_extension(unix_name(path)) == name_extension(windows_name(path)) ==> same_import_but_name(
            r1,
            r2,
        ),
        unix_name(path) == windows_name(path) ==> same_import(r1, r2),
{
    let n1 = choose|name: Option<Seq<char>>|
        #![trigger file_name_fits(path, name)]
        file_name_fits(path, name) && parts_outcome(r1, file_size, name, extension_in(name), bytes);
    let n2 = choose|name: Option<Seq<char>>|
        #![trigger file_name_fits(path, name)]
        file_name_fits(path, name) && parts_outcome(r2, file_size, name, extension_in(name), bytes);
    if name_extension(unix_name(path)) == name_extension(windows_name(path)) {
        lemma_parts_extension_case_ignored(
            r1,
            r2,
            file_size,
            n1,
            n2,
            extension_in(n1),
            extension_in(n2),
            bytes,
        );
    }
    if unix_name(path) == windows_name(path) {
        lemma_parts_deterministic(r1, r2, file_size, n1, extension_in(n1), bytes);
    }
}

/// Law: file types are matched without regard to ASCII letter case: two
/// imports of equal size and bytes whose extensions differ only in the case
/// of ASCII letters give alike results but for the file name.
pub proof fn lemma_parts_extension_case_ignored(
    r1: Result<ParseResult, ParseError>,
    r2: Result<ParseResult, ParseError>,
    file_size: u64,
    name1: Option<Seq<char>>,
    name2: Option<Seq<char>>,
    extension1: Option<Seq<char>>,
    extension2: Option<Seq<char>>,
    bytes: Seq<u8>,
)
    requires
        ascii_lowercase(extension_or_empty(extension1)) == ascii_lowercase(
            extension_or_empty(extension2),
        ),
        parts_outcome(r1, file_size, name1, extension1, bytes),
        parts_outcome(r2, file_size, name2, extension2, bytes),
    ensures
        same_import_but_name(r1, r2),
{
}

/// Law: file types are matched without regard to ASCII letter case: two
/// files of equal size and bytes whose paths carry extensions that differ
/// only in the case of ASCII letters (in the Unix reading and in the Windows
/// reading alike) import alike, but for the file name, which keeps its case.
pub proof fn lemma_extension_case_ignored(
    r1: Result<ParseResult, ParseError>,
    p1: Seq<char>,
    r2: Result<ParseResult, ParseError>,
    p2: Seq<char>,
    file_size: u64,
    bytes: Seq<u8>,
)
    requires
        drive_or_no_prefix(p1),
        drive_or_no_prefix(p2),
        ascii_lowercase(name_extension(unix_name(p1))) == ascii_lowercase(
            name_extension(unix_name(p2)),
        ),
        ascii_lowercase(name_extension(windows_name(p1))) == ascii_lowercase(
            name_extension(unix_name(p1)),
        ),
        ascii_lowercase(name_extension(windows_name(p2))) == ascii_lowercase(
            name_extension(unix_name(p2)),
        ),
        import_outcome(r1, p1, file_size, bytes),
        import_outcome(r2, p2, file_size, bytes),
    ensures
        same_import_but_name(r1, r2),
{
    let n1 = choose|name: Option<Seq<char>>|
        #![trigger file_name_fits(p1, name)]
        file_name_fits(p1, name) && parts_outcome(r1, file_size, name, extension_in(name), bytes);
    let n2 = choose|name: Option<Seq<char>>|
        #![trigger file_name_fits(p2, name)]
        file_name_fits(p2, name) && parts_outcome(r2, file_size, name, extension_in(name), bytes);
    lemma_parts_extension_case_ignored(
        r1,
        r2,
        file_size,
        n1,
        n2,
        extension_in(n1),
        extension_in(n2),
        bytes,
    );
}

/// Without '\', the last part and the file name are the same in both
/// splittings.
proof fn lemma_splittings_agree(path: Seq<char>)
    requires
        !path.contains('\\'),
    ensures
        last_part(path, true) == last_part(path, false),
        last_name(path, true) == last_name(path, false),
    decreases path.len(),
{
    if path.len() > 0 {
        assert(path[path.len() - 1] != '\\');
        assert forall|i: int| 0 <= i < path.drop_last().len() implies path.drop_last()[i]
            != '\\' by {
            assert(path[i] != '\\');
        }
        lemma_splittings_agree(path.drop_last());
    }
}

/// Law: a path without '\' and without a drive reads the same on Unix and
/// on Windows.
pub proof fn lemma_readings_agree(path: Seq<char>)
    requires
        !path.contains('\\'),
        !has_drive(path),
    ensures
        unix_name(path) == windows_name(path),
{
    lemma_splittings_agree(path);
}

/// Law: a line break, hard or soft, adds exactly one newline to the text
/// gathered so far and leaves the code-block state as it was.
pub proof fn lemma_line_break_adds_newline(events: Seq<MdToken>, hard: bool)
    ensures
        ({
            let b = if hard {
                MdToken::HardBreak
            } else {
                MdToken::SoftBreak
            };
            gather_text(events.push(b)) == (gather_text(events).0.push('\n'), gather_text(events).1)
        }),
{
    let b = if hard {
        MdToken::HardBreak
    } else {
        MdToken::SoftBreak
    };
    assert(events.push(b).drop_last() =~= events);
}

/// Law: only the start of a code block opens one and only its end closes
/// one; every other event leaves the code-block state as it was.
pub proof fn lemma_code_block_state(events: Seq<MdToken>, t: MdToken)
    ensures
        gather_text(events.push(t)).1 == (t is CodeBlockStart || (gather_text(events).1
            && !(t is CodeBlockEnd))),
{
    assert(events.push(t).drop_last() =~= events);
}

/// Law: the start of a code block adds no text, its end adds exactly one
/// newline, and any other event that is not text or a line break changes
/// nothing.
pub proof fn lemma_code_block_bounds_and_other_events(events: Seq<MdToken>)
    ensures
        gather_text(events.push(MdToken::CodeBlockStart)).0 == gather_text(events).0,
        gather_text(events.push(MdToken::CodeBlockEnd)).0 == gather_text(events).0.push('\n'),
        gather_text(events.push(MdToken::Other)) == gather_text(events),
{
    assert(events.push(MdToken::CodeBlockStart).drop_last() =~= events);
    assert(events.push(MdToken::CodeBlockEnd).drop_last() =~= events);
    assert(events.push(MdToken::Other).drop_last() =~= events);
}

/// Law: events without a code block's start never leave a code block open,
/// so every piece of text among them is kept.
pub proof fn lemma_no_code_block_keeps_all_text(events: Seq<MdToken>)
    requires
        forall|i: int| 0 <= i < events.len() ==> !(#[trigger] events[i] is CodeBlockStart),
    ensures
        !gather_text(events).1,
    decreases events.len(),
{
    if events.len() > 0 {
        let rest = events.drop_last();
        assert forall|i: int| 0 <= i < rest.len() implies !(#[trigger] rest[i] is CodeBlockStart) by {
            assert(rest[i] == events[i]);
        }
        lemma_no_code_block_keeps_all_text(rest);
        assert(!(events[events.len() - 1] is CodeBlockStart));
    }
}

/// `e` lowers to "txt" the ASCII way only when it is ASCII itself.
proof fn lemma_ascii_lowercase_of_ascii(e: Seq<char>, t: Seq<char>)
    requires
        ascii_lowercase(e) == t,
        is_ascii_text(t),
    ensures
        is_ascii_text(e),
{
    assert forall|i: int| 0 <= i < e.len() implies (e[i] as u32) < 128 by {
        assert(ascii_lowercase(e)[i] == ascii_lower(e[i]));
        assert((t[i] as u32) < 128);
    }
}

/// Law: a text file of an accepted size is imported whole: its content is
/// the entire decoded text, of the same length, its type is "text" and its
/// name the one found; this for every extension that reads "txt" in any
/// letter case, and whatever the length of the text.
pub proof fn lemma_text_file_imported_whole(
    r: Result<ParseResult, ParseError>,
    file_size: u64,
    name: Option<Seq<char>>,
    extension: Seq<char>,
    bytes: Seq<u8>,
)
    requires
        !too_large(file_size),
        ascii_lowercase(extension) == "txt"@,
        parts_outcome(r, file_size, name, Some(extension), bytes),
    ensures
        r matches Ok(pr) && pr.content@ == decoded_text(bytes) && pr.content@.len()
            == decoded_text(bytes).len() && pr.file_type@ == "text"@ && pr.file_name@
            == name_or_unknown(name) && pr.warning is None,
{
    reveal_strlit("txt");
    reveal_strlit("md");
    reveal_strlit("markdown");
    assert(is_ascii_text("txt"@));
    lemma_ascii_lowercase_of_ascii(extension, "txt"@);
    assert("txt"@.len() != "md"@.len() && "txt"@.len() != "markdown"@.len());
}

/// Law: a Markdown file of an accepted size is imported as the plain text
/// of the whole decoded document, with type "markdown", for every extension
/// that reads "md" in any letter case.
pub proof fn lemma_markdown_file_imported_whole(
    r: Result<ParseResult, ParseError>,
    file_size: u64,
    name: Option<Seq<char>>,
    extension: Seq<char>,
    bytes: Seq<u8>,
)
    requires
        !too_large(file_size),
        ascii_lowercase(extension) == "md"@,
        parts_outcome(r, file_size, name, Some(extension), bytes),
    ensures
        r matches Ok(pr) && pr.content@ == markdown_plain_text(decoded_text(bytes))
            && pr.file_type@ == "markdown"@ && pr.file_name@ == name_or_unknown(name)
            && pr.warning is None,
{
    reveal_strlit("md");
    assert(is_ascii_text("md"@));
    lemma_ascii_lowercase_of_ascii(extension, "md"@);
}

/// Law: from its decoded text, a file of an accepted size with extension
/// "txt" gives that whole text as its content, whatever its length.
pub proof fn lemma_decoded_text_kept_whole(
    r: Result<ParseResult, ParseError>,
    file_size: u64,
    file_name: Seq<char>,
    text: Seq<char>,
)
    requires
        !too_large(file_size),
        parse_outcome(r, file_size, file_name, "txt"@, text),
    ensures
        r matches Ok(pr) && pr.content@ == text && pr.content@.len() == text.len()
            && pr.file_type@ == "text"@,
{
    reveal_strlit("txt");
    reveal_strlit("md");
    reveal_strlit("markdown");
    assert("txt"@.len() != "md"@.len() && "txt"@.len() != "markdown"@.len());
}

/// Law: a file that is valid UTF-8 is read as exactly the characters it
/// encodes.
pub proof fn lemma_utf8_files_read_verbatim(bytes: Seq<u8>)
    requires
        valid_utf8(bytes),
    ensures
        decoded_text(bytes) == decode_utf8(bytes),
{
}

/// Law: text inside a code block never reaches the plain text.
pub proof fn lemma_code_block_text_dropped(events: Seq<MdToken>, t: Seq<char>)
    requires
        gather_text(events).1,
    ensures
        gather_text(events.push(MdToken::Text(t))) == gather_text(events),
{
    assert(events.push(MdToken::Text(t)).drop_last() =~= events);
}

/// Law: text outside code blocks reaches the plain text, followed by a line
/// break.
pub proof fn lemma_prose_text_kept(events: Seq<MdToken>, t: Seq<char>)
    requires
        !gather_text(events).1,
    ensures
        gather_text(events.push(MdToken::Text(t))).0 == gather_text(events).0 + t + seq!['\n'],
{
    assert(events.push(MdToken::Text(t)).drop_last() =~= events);
}

/// Law: the plain text of a Markdown document neither begins nor ends with
/// white space.
pub proof fn lemma_plain_text_trimmed(md: Seq<char>)
    ensures
        markdown_plain_text(md).len() > 0 ==> !is_white_space(markdown_plain_text(md)[0])
            && !is_white_space(markdown_plain_text(md).last()),
{
    lemma_trim_has_no_outer_white_space(gather_text(markdown_events(md)).0);
}

} // verus!

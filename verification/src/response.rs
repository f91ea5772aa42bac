//! Responses as plain values: a status, headers and a body.

use vstd::prelude::*;
use vstd::utf8::is_ascii_chars;
use std::str::FromStr;

verus! {

/// The status of every response that is sent.
pub const STATUS_OK: u16 = 200;

/// The header line for a generated page.
pub const HTML_LINE: &'static str = "Content-Type:text/html";

/// The header line for a file, whatever the file holds.
pub const OCTET_STREAM_LINE: &'static str = "Content-Type:application/octet-stream";

/// One response header.
#[derive(Clone, Debug, PartialEq, Eq)]
pub struct Header {
    /// The header's name.
    pub field: String,
    /// The header's value.
    pub value: String,
}

/// A header as two texts.
pub struct HeaderView {
    pub field: Seq<char>,
    pub value: Seq<char>,
}

impl View for Header {
    type V = HeaderView;

    open spec fn view(&self) -> HeaderView {
        HeaderView { field: self.field@, value: self.value@ }
    }
}

/// The two content types that the server knows.
#[derive(Clone, Copy, Debug, PartialEq, Eq, Structural)]
pub enum ContentType {
    /// A generated page.
    Html,
    /// Raw bytes.
    OctetStream,
}

/// What a response carries: a generated page, or a stream handed over by the
/// caller, which the library passes on untouched.
#[derive(Clone, Debug, PartialEq, Eq)]
pub enum Body<B> {
    /// A generated page.
    Html(String),
    /// The contents of a file.
    Stream(B),
}

/// A body with its page as a text.
pub enum BodyView<B> {
    Html(Seq<char>),
    Stream(B),
}

impl<B> View for Body<B> {
    type V = BodyView<B>;

    open spec fn view(&self) -> BodyView<B> {
        match *self {
            Body::Html(page) => BodyView::Html(page@),
            Body::Stream(stream) => BodyView::Stream(stream),
        }
    }
}

/// A response ready to be written to the transport.
#[derive(Clone, Debug, PartialEq, Eq)]
pub struct OutgoingResponse<B> {
    /// The status code.
    pub status: u16,
    /// The headers, in the order in which they are sent.
    pub headers: Vec<Header>,
    /// The body.
    pub body: Body<B>,
}

/// A response with its texts as sequences.
pub struct ResponseView<B> {
    pub status: u16,
    pub headers: Seq<HeaderView>,
    pub body: BodyView<B>,
}

impl<B> View for OutgoingResponse<B> {
    type V = ResponseView<B>;

    open spec fn view(&self) -> ResponseView<B> {
        ResponseView {
            status: self.status,
            headers: self.headers@.map_values(|header: Header| header@),
            body: self.body@,
        }
    }
}

/// Whitespace among the ASCII characters: tab, line feed, vertical tab, form
/// feed, carriage return and space.
pub open spec fn is_whitespace(c: char) -> bool {
    c == '\t' || c == '\n' || c == '\u{b}' || c == '\u{c}' || c == '\r' || c == ' '
}

/// `text` without the whitespace at its two ends.
pub open spec fn trimmed(text: Seq<char>) -> Seq<char>
    decreases text.len(),
{
    if text.len() > 0 && is_whitespace(text.first()) {
        trimmed(text.drop_first())
    } else if text.len() > 0 && is_whitespace(text.last()) {
        trimmed(text.drop_last())
    } else {
        text
    }
}

/// How many characters stand before the first colon of `line`; its whole
/// length if it holds none.
pub open spec fn field_len(line: Seq<char>) -> nat
    decreases line.len(),
{
    if line.len() == 0 || line[0] == ':' {
        0
    } else {
        1 + field_len(line.drop_first())
    }
}

/// The header that a line of ASCII text spells. The field is what stands
/// before the first colon and may hold no whitespace; the value is what
/// follows that colon, trimmed. A line without a colon spells no header.
pub open spec fn header_of_line(line: Seq<char>) -> Option<HeaderView> {
    let cut = field_len(line) as int;
    if cut == line.len() {
        None
    } else if exists|i: int| 0 <= i < cut && is_whitespace(#[trigger] line[i]) {
        None
    } else {
        Some(HeaderView { field: line.take(cut), value: trimmed(line.skip(cut + 1)) })
    }
}

impl ContentType {
    /// The media type as it stands in the header.
    pub open spec fn media_type(self) -> Seq<char> {
        match self {
            ContentType::Html => "text/html"@,
            ContentType::OctetStream => "application/octet-stream"@,
        }
    }

    /// The `Content-Type` header of this type.
    pub open spec fn header(self) -> HeaderView {
        HeaderView { field: "Content-Type"@, value: self.media_type() }
    }

    /// The header line of this type.
    pub open spec fn line(self) -> Seq<char> {
        match self {
            ContentType::Html => HTML_LINE@,
            ContentType::OctetStream => OCTET_STREAM_LINE@,
        }
    }
}

/// Parses a header line with `<tiny_http::Header as FromStr>::from_str` and
/// hands back the field and the value it found. The contract is not proved
/// but taken from that function's source: for a line of ASCII text it splits
/// at the first colon, refuses a field that holds whitespace, and trims the
/// value; it fails on a line without a colon.
#[verifier::external_body]
fn parse_header_line(line: &str) -> (parsed: Option<Header>)
    requires
        is_ascii_chars(line@),
    ensures
        match header_of_line(line@) {
            Some(header) => parsed matches Some(found) && found@ == header,
            None => parsed is None,
        },
{
    match tiny_http::Header::from_str(line) {
        Ok(header) => Some(
            Header {
                field: header.field.as_str().as_str().to_string(),
                value: header.value.as_str().to_string(),
            },
        ),
        Err(()) => None,
    }
}

/// Where the first colon of a line stands, given that nothing before `cut`
/// is a colon and that `cut` is one or the end of the line.
proof fn lemma_field_len(line: Seq<char>, cut: int)
    requires
        0 <= cut <= line.len(),
        forall|i: int| 0 <= i < cut ==> line[i] != ':',
        cut < line.len() ==> line[cut] == ':',
    ensures
        field_len(line) == cut,
    decreases line.len(),
{
    if cut > 0 {
        lemma_field_len(line.drop_first(), cut - 1);
    }
}

/// The two header lines spell the `Content-Type` headers.
pub proof fn lemma_content_type_lines(content_type: ContentType)
    ensures
        is_ascii_chars(content_type.line()),
        header_of_line(content_type.line()) == Some(content_type.header()),
{
    reveal_strlit("Content-Type");
    let line = content_type.line();
    match content_type {
        ContentType::Html => {
            reveal_strlit("Content-Type:text/html");
            reveal_strlit("text/html");
        },
        ContentType::OctetStream => {
            reveal_strlit("Content-Type:application/octet-stream");
            reveal_strlit("application/octet-stream");
        },
    }
    lemma_field_len(line, 12);
    assert(line.take(12) == "Content-Type"@);
    assert(line.skip(13) == content_type.media_type());
}

/// The `Content-Type` header of the given type.
pub fn content_type_header(content_type: ContentType) -> (header: Header)
    ensures
        header@ == content_type.header(),
{
    let line = match content_type {
        ContentType::Html => HTML_LINE,
        ContentType::OctetStream => OCTET_STREAM_LINE,
    };
    proof {
        lemma_content_type_lines(content_type);
    }
    parse_header_line(line).unwrap()
}

/// The response that carries a generated page.
pub open spec fn page_response<B>(page: Seq<char>) -> ResponseView<B> {
    ResponseView {
        status: STATUS_OK,
        headers: seq![ContentType::Html.header()],
        body: BodyView::Html(page),
    }
}

/// The response that carries a file's contents.
pub open spec fn stream_response<B>(stream: B) -> ResponseView<B> {
    ResponseView {
        status: STATUS_OK,
        headers: seq![ContentType::OctetStream.header()],
        body: BodyView::Stream(stream),
    }
}

/// Wraps a generated page into a response: found, and typed as HTML.
pub fn respond_with_page<B>(page: String) -> (response: OutgoingResponse<B>)
    ensures
        response@ == page_response::<B>(page@),
{
    let header = content_type_header(ContentType::Html);
    let mut headers: Vec<Header> = Vec::new();
    headers.push(header);
    assert(headers@.map_values(|header: Header| header@) == seq![ContentType::Html.header()]);
    OutgoingResponse { status: STATUS_OK, headers, body: Body::Html(page) }
}

/// Wraps a file's contents into a response: found, and typed as raw bytes
/// whatever the file holds. The contents are passed on as they are.
pub fn respond_with_stream<B>(stream: B) -> (response: OutgoingResponse<B>)
    ensures
        response@ == stream_response(stream),
{
    let header = content_type_header(ContentType::OctetStream);
    let mut headers: Vec<Header> = Vec::new();
    headers.push(header);
    assert(headers@.map_values(|header: Header| header@) == seq![
        ContentType::OctetStream.header(),
    ]);
    OutgoingResponse { status: STATUS_OK, headers, body: Body::Stream(stream) }
}

} // verus!

//! Responses, and the wire text that stands for one.

use crate::headers::{
    lemma_position_of, lemma_position_of_unique, lemma_without, names_distinct, without, Field,
    Headers,
};
use crate::text::{
    crlf, decimal, join_lines, lemma_join_lines_add, lemma_join_lines_push,
    lemma_lines_of_joined, lines, push_decimal, same_text,
};
use vstd::prelude::*;
use vstd::std_specs::convert::FromSpecImpl;
use vstd::string::*;
use vstd::utf8::{encode_utf8, is_ascii_chars, is_ascii_chars_encode_utf8};

verus! {

/// A response as plain values: the parts of its status line, its header
/// fields in order, and its body where it has one.
pub struct ResponseView {
    /// The protocol version.
    pub version: Seq<char>,
    /// The status code.
    pub status_code: Seq<char>,
    /// The reason phrase.
    pub status_text: Seq<char>,
    /// The header fields, in the order in which they are written.
    pub headers: Seq<Field>,
    /// The body, where there is one.
    pub body: Option<Seq<char>>,
}

/// The reason phrase that belongs to a status code.
pub open spec fn reason_phrase(status_code: Seq<char>) -> Seq<char> {
    if status_code == "200"@ {
        "OK"@
    } else if status_code == "400"@ {
        "Bad Request"@
    } else if status_code == "404"@ {
        "Not Found"@
    } else if status_code == "500"@ {
        "Internal Server Error"@
    } else {
        "Unknown"@
    }
}

/// The header fields of a response that was given none.
pub open spec fn default_fields() -> Seq<Field> {
    seq![("Content-Type"@, "text/html"@)]
}

/// The header fields of a response that was given `headers`: the given ones
/// but for a field named `Content-Length`, as the length of the body is
/// always counted and never given; the default ones where none are given.
pub open spec fn fields_of(headers: Option<Seq<Field>>) -> Seq<Field> {
    match headers {
        Some(fields) => without(fields, "Content-Length"@),
        None => default_fields(),
    }
}

/// The response with the given status code, header fields and body. Its
/// reason phrase follows from the status code.
pub open spec fn response_of(
    status_code: Seq<char>,
    headers: Option<Seq<Field>>,
    body: Option<Seq<char>>,
) -> ResponseView {
    ResponseView {
        version: "HTTP/1.1"@,
        status_code,
        status_text: reason_phrase(status_code),
        headers: fields_of(headers),
        body,
    }
}

/// What holds of every response: the reason phrase is the one that belongs
/// to the status code, no two header fields have one name, and none is named
/// `Content-Length`.
pub open spec fn well_formed(response: ResponseView) -> bool {
    &&& response.status_text == reason_phrase(response.status_code)
    &&& names_distinct(response.headers)
    &&& forall|i: int|
        0 <= i < response.headers.len() ==> (#[trigger] response.headers[i]).0
            != "Content-Length"@
}

/// The text of a body: empty where there is none.
pub open spec fn body_text(body: Option<Seq<char>>) -> Seq<char> {
    match body {
        Some(text) => text,
        None => Seq::empty(),
    }
}

/// A header field as it is written: name, colon, value.
pub open spec fn field_text(field: Field) -> Seq<char> {
    field.0 + ":"@ + field.1
}

/// Header fields as they are written, in order.
pub open spec fn field_texts(fields: Seq<Field>) -> Seq<Seq<char>> {
    fields.map_values(|field: Field| field_text(field))
}

/// The lines of header fields on the wire: each field as it is written,
/// with a carriage return and a line feed behind it.
pub open spec fn header_text(fields: Seq<Field>) -> Seq<char> {
    join_lines(field_texts(fields), crlf())
}

/// What the status line of a response says: version, status code and reason
/// phrase.
pub open spec fn status_of(response: ResponseView) -> Seq<char> {
    response.version + " "@ + response.status_code + " "@ + response.status_text
}

/// The field that gives the length of a body, counted in the bytes of its
/// UTF-8 encoding.
pub open spec fn content_length_text(body: Seq<char>) -> Seq<char> {
    "Content-Length:"@ + decimal(encode_utf8(body).len())
}

/// The lines of a response before its body: the status, a line for each
/// header field, the length of the body, and an empty line.
pub open spec fn head_lines(response: ResponseView) -> Seq<Seq<char>> {
    seq![status_of(response)] + field_texts(response.headers) + seq![
        content_length_text(body_text(response.body)),
        Seq::empty(),
    ]
}

/// A response on the wire: the lines of its head, each with a carriage
/// return and a line feed behind it, and then the body.
pub open spec fn wire_text(response: ResponseView) -> Seq<char> {
    join_lines(head_lines(response), crlf()) + body_text(response.body)
}

/// The table of reason phrases: `200` is `OK`, `400` is `Bad Request`, `404`
/// is `Not Found`, `500` is `Internal Server Error`, and every other status
/// code is `Unknown`.
pub proof fn lemma_reason_phrases(status_code: Seq<char>)
    ensures
        reason_phrase("200"@) == "OK"@,
        reason_phrase("400"@) == "Bad Request"@,
        reason_phrase("404"@) == "Not Found"@,
        reason_phrase("500"@) == "Internal Server Error"@,
        status_code != "200"@ && status_code != "400"@ && status_code != "404"@ && status_code
            != "500"@ ==> reason_phrase(status_code) == "Unknown"@,
{
    reveal_strlit("200");
    reveal_strlit("400");
    reveal_strlit("404");
    reveal_strlit("500");
    assert("400"@[0] != "200"@[0]);
    assert("404"@[2] != "400"@[2]);
    assert("500"@[0] != "400"@[0]);
}

/// The wire text of any response is its status line, the lines of its
/// header fields, the field `Content-Length` with the number of bytes of the
/// body, an empty line, and the body. A response without a body, or with an
/// empty one, says `Content-Length:0`; for a body of ASCII characters the
/// number is the number of its characters.
pub proof fn lemma_content_length(response: ResponseView)
    ensures
        wire_text(response) == status_of(response) + "\r\n"@ + header_text(response.headers)
            + "Content-Length:"@ + decimal(encode_utf8(body_text(response.body)).len())
            + "\r\n\r\n"@ + body_text(response.body),
        body_text(response.body).len() == 0 ==> wire_text(response) == status_of(response)
            + "\r\n"@ + header_text(response.headers) + "Content-Length:0\r\n\r\n"@,
        is_ascii_chars(body_text(response.body)) ==> encode_utf8(body_text(response.body)).len()
            == body_text(response.body).len(),
{
    reveal_strlit("Content-Length:");
    reveal_strlit("Content-Length:0\r\n\r\n");
    reveal_strlit("\r\n\r\n");
    reveal_strlit("\r\n");
    let body = body_text(response.body);
    let first = seq![status_of(response)];
    let fields = field_texts(response.headers);
    let last = seq![content_length_text(body), Seq::<char>::empty()];
    lemma_join_lines_add(first + fields, last, crlf());
    lemma_join_lines_add(first, fields, crlf());
    assert(join_lines(first, crlf()) =~= status_of(response) + "\r\n"@) by {
        assert(join_lines(first.drop_first(), crlf()) =~= Seq::<char>::empty());
    }
    assert(join_lines(last, crlf()) =~= content_length_text(body) + "\r\n\r\n"@) by {
        assert(join_lines(last.drop_first().drop_first(), crlf()) =~= Seq::<char>::empty());
        assert(join_lines(last.drop_first(), crlf()) =~= crlf());
    }
    if is_ascii_chars(body) {
        is_ascii_chars_encode_utf8(body);
    }
}

/// Read by lines, the wire text of a response is its status, one line for
/// each of its header fields, the line `Content-Length:` with the number of
/// bytes of the body, an empty line, and the lines of the body. This holds of
/// a response whose status and header fields hold no line feed.
pub proof fn lemma_lines_of_wire_text(response: ResponseView)
    requires
        forall|i: int|
            0 <= i < head_lines(response).len() ==> !(#[trigger] head_lines(response)[i]).contains(
                '\n',
            ),
    ensures
        lines(wire_text(response)) == head_lines(response) + lines(body_text(response.body)),
{
    lemma_lines_of_joined(head_lines(response), crlf(), body_text(response.body));
}

/// A response with the status code `200` that was given no header fields
/// goes on the wire with the one header field `Content-Type:text/html`
/// before its `Content-Length`.
pub proof fn lemma_default_headers_on_the_wire(body: Option<Seq<char>>)
    ensures
        wire_text(response_of("200"@, None, body))
            == "HTTP/1.1 200 OK\r\nContent-Type:text/html\r\nContent-Length:"@ + decimal(
            encode_utf8(body_text(body)).len(),
        ) + "\r\n\r\n"@ + body_text(body),
{
    reveal_strlit("HTTP/1.1 200 OK\r\nContent-Type:text/html\r\nContent-Length:");
    reveal_strlit("HTTP/1.1");
    reveal_strlit("200");
    reveal_strlit("OK");
    reveal_strlit(" ");
    reveal_strlit(":");
    reveal_strlit("\r\n");
    reveal_strlit("Content-Type");
    reveal_strlit("text/html");
    reveal_strlit("Content-Length:");
    let response = response_of("200"@, None, body);
    lemma_content_length(response);
    let written = field_texts(default_fields());
    assert(join_lines(written.drop_first(), crlf()) =~= Seq::<char>::empty());
}

/// The header fields that were given, as plain text.
pub open spec fn given_fields(headers: Option<Headers>) -> Option<Seq<Field>> {
    match headers {
        Some(given) => Some(given.fields()),
        None => None,
    }
}

/// The text that was given, as plain text.
pub open spec fn given_text(body: Option<String>) -> Option<Seq<char>> {
    match body {
        Some(text) => Some(text@),
        None => None,
    }
}

/// A response. Its reason phrase is the one that belongs to its status code,
/// and it holds no header field named `Content-Length`.
#[derive(Debug, PartialEq)]
pub struct HttpResponse<'a> {
    version: &'a str,
    status_code: &'a str,
    status_text: &'a str,
    headers: Headers,
    body: Option<String>,
}

impl<'a> View for HttpResponse<'a> {
    type V = ResponseView;

    /// The response as plain values.
    closed spec fn view(&self) -> ResponseView {
        ResponseView {
            version: self.version@,
            status_code: self.status_code@,
            status_text: reason_phrase(self.status_code@),
            headers: without(self.headers.fields(), "Content-Length"@),
            body: given_text(self.body),
        }
    }
}

impl<'a> Default for HttpResponse<'a> {
    /// The response `200 OK` with the default header fields and no body.
    fn default() -> (response: HttpResponse<'a>)
        ensures
            response@ == response_of("200"@, None, None),
    {
        HttpResponse::new("200", None, None)
    }
}

impl<'a> Clone for HttpResponse<'a> {
    /// A response with the same parts.
    fn clone(&self) -> (copy: HttpResponse<'a>)
        ensures
            copy@ == self@,
    {
        proof {
            use_type_invariant(self);
        }
        HttpResponse {
            version: self.version,
            status_code: self.status_code,
            status_text: self.status_text,
            headers: self.headers.clone(),
            body: self.body.clone(),
        }
    }
}

impl<'a> HttpResponse<'a> {
    /// What is stored is what the view shows: the reason phrase belongs to
    /// the status code, and no header field is named `Content-Length`.
    #[verifier::type_invariant]
    spec fn is_as_viewed(&self) -> bool {
        &&& self.status_text@ == reason_phrase(self.status_code@)
        &&& self.headers.fields() == without(self.headers.fields(), "Content-Length"@)
    }

    /// Every response is well formed.
    pub proof fn lemma_well_formed(self)
        ensures
            well_formed(self@),
    {
        self.headers.lemma_fields();
        lemma_without(self.headers.fields(), "Content-Length"@);
        lemma_position_of(self@.headers, "Content-Length"@);
    }

    /// The reason phrase that belongs to `status_code`.
    fn phrase_for(status_code: &str) -> (phrase: &'static str)
        ensures
            phrase@ == reason_phrase(status_code@),
    {
        if same_text(status_code, "200") {
            "OK"
        } else if same_text(status_code, "400") {
            "Bad Request"
        } else if same_text(status_code, "404") {
            "Not Found"
        } else if same_text(status_code, "500") {
            "Internal Server Error"
        } else {
            "Unknown"
        }
    }

    /// A response with the given status code. Without `headers` it has the
    /// one field `Content-Type: text/html`; fields that are given stand
    /// alone. A given field named `Content-Length` is left out: the length of
    /// the body is counted when the response is written.
    pub fn new(status_code: &'a str, headers: Option<Headers>, body: Option<String>) -> (response:
        HttpResponse<'a>)
        ensures
            response@ == response_of(status_code@, given_fields(headers), given_text(body)),
    {
        let headers = match headers {
            Some(given) => {
                let mut fields = given;
                fields.remove("Content-Length");
                proof {
                    given.lemma_fields();
                    lemma_without(given.fields(), "Content-Length"@);
                }
                fields
            },
            None => {
                let mut fields = Headers::new();
                fields.insert("Content-Type".to_owned(), "text/html".to_owned());
                proof {
                    reveal_strlit("Content-Type");
                    reveal_strlit("Content-Length");
                    assert("Content-Type"@[8] != "Content-Length"@[8]);
                    lemma_position_of_unique(default_fields(), "Content-Length"@, 1);
                }
                fields
            },
        };
        HttpResponse {
            version: "HTTP/1.1",
            status_code,
            status_text: Self::phrase_for(status_code),
            headers,
            body,
        }
    }

    /// The protocol version.
    pub fn version(&self) -> (version: &str)
        ensures
            version@ == self@.version,
    {
        self.version
    }

    /// The status code.
    pub fn status_code(&self) -> (status_code: &str)
        ensures
            status_code@ == self@.status_code,
    {
        self.status_code
    }

    /// The reason phrase, which is the one that belongs to the status code.
    pub fn status_text(&self) -> (status_text: &str)
        ensures
            status_text@ == self@.status_text,
            status_text@ == reason_phrase(self@.status_code),
    {
        proof {
            use_type_invariant(self);
        }
        self.status_text
    }

    /// The lines of the header fields as they go on the wire.
    pub fn headers(&self) -> (lines: String)
        ensures
            lines@ == header_text(self@.headers),
    {
        proof {
            use_type_invariant(self);
        }
        let mut lines = String::new();
        let count: usize = self.headers.len();
        let ghost fields = self.headers.fields();
        let mut at: usize = 0;
        while at < count
            invariant
                at <= count,
                count == fields.len(),
                fields == self.headers.fields(),
                lines@ == header_text(fields.take(at as int)),
            decreases count - at,
        {
            match self.headers.get_index(at) {
                Some((name, value)) => {
                    lines.append(name);
                    lines.append(":");
                    lines.append(value);
                    lines.append("\r\n");
                    proof {
                        reveal_strlit("\r\n");
                        let written = field_texts(fields.take(at as int));
                        lemma_join_lines_push(written, field_text(fields[at as int]), crlf());
                        assert(field_texts(fields.take(at + 1)) =~= written.push(
                            field_text(fields[at as int]),
                        ));
                    }
                },
                None => {},
            }
            at += 1;
        }
        assert(fields.take(count as int) =~= fields);
        lines
    }

    /// The body; empty where the response has none.
    pub fn body(&self) -> (body: &str)
        ensures
            body@ == body_text(self@.body),
    {
        match &self.body {
            Some(text) => text.as_str(),
            None => {
                let empty = "";
                proof {
                    reveal_strlit("");
                }
                empty
            },
        }
    }

    /// The response as it goes on the wire.
    pub fn serialize(&self) -> (wire: String)
        ensures
            wire@ == wire_text(self@),
    {
        proof {
            use_type_invariant(self);
        }
        let body = self.body();
        let mut wire = String::new();
        wire.append(self.version);
        wire.append(" ");
        wire.append(self.status_code);
        wire.append(" ");
        wire.append(self.status_text);
        wire.append("\r\n");
        wire.append(self.headers().as_str());
        wire.append("Content-Length:");
        push_decimal(&mut wire, body.as_bytes().len());
        wire.append("\r\n\r\n");
        wire.append(body);
        proof {
            lemma_content_length(self@);
        }
        wire
    }

    /// Writes the response to `sink` as it goes on the wire, in UTF-8.
    pub fn send_response(&self, sink: &mut Vec<u8>)
        ensures
            final(sink)@ == old(sink)@ + encode_utf8(wire_text(self@)),
    {
        let wire = self.serialize();
        sink.extend_from_slice(wire.as_str().as_bytes());
    }
}

impl<'a> From<HttpResponse<'a>> for String {
    /// The response as it goes on the wire.
    fn from(value: HttpResponse<'a>) -> (wire: String)
        ensures
            wire@ == wire_text(value@),
    {
        value.serialize()
    }
}

impl<'a> FromSpecImpl<HttpResponse<'a>> for String {
    open spec fn obeys_from_spec() -> bool {
        false
    }

    open spec fn from_spec(value: HttpResponse<'a>) -> String {
        arbitrary()
    }
}

} // verus!

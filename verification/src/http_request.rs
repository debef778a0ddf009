//! Requests, and the parser that reads one from the text of a connection.

use crate::headers::{
    as_map, lemma_as_map_len, lemma_as_map_value, names_distinct, Field, Headers,
};
use crate::search::{first_where, lemma_first_where, lemma_first_where_unique};
use crate::text::{
    chars_of, crlf, find_char, first_index, join_lines, lemma_first_index_unique,
    lemma_lines_of_joined, lemma_split, lf, lines, lines_of, same_text, split, texts, trim,
    trim_bounds,
};
use vstd::prelude::*;
use vstd::std_specs::convert::FromSpecImpl;
use vstd::string::*;

verus! {

/// The protocol version that a request names.
#[allow(non_camel_case_types)]
#[derive(Debug, PartialEq, Eq, Clone, Copy, Structural)]
pub enum Version {
    /// `HTTP/1.1`.
    V1_1,
    /// Anything else.
    UNKNOWN,
}

/// The version that the token `token` of a request line stands for.
pub open spec fn version_of(token: Seq<char>) -> Version {
    if token == "HTTP/1.1"@ {
        Version::V1_1
    } else {
        Version::UNKNOWN
    }
}

impl From<&str> for Version {
    /// The version that the token `value` stands for.
    fn from(value: &str) -> (version: Version)
        ensures
            version == version_of(value@),
    {
        if same_text(value, "HTTP/1.1") {
            Version::V1_1
        } else {
            Version::UNKNOWN
        }
    }
}

impl FromSpecImpl<&str> for Version {
    open spec fn obeys_from_spec() -> bool {
        true
    }

    open spec fn from_spec(value: &str) -> Version {
        version_of(value@)
    }
}

/// The method of a request.
#[derive(Debug, PartialEq, Eq, Clone, Copy, Structural)]
pub enum Method {
    /// `GET`.
    GET,
    /// `POST`.
    POST,
    /// Anything else.
    UNKNOWN,
}

/// The method that the token `token` of a request line stands for.
pub open spec fn method_of(token: Seq<char>) -> Method {
    if token == "GET"@ {
        Method::GET
    } else if token == "POST"@ {
        Method::POST
    } else {
        Method::UNKNOWN
    }
}

impl From<&str> for Method {
    /// The method that the token `value` stands for.
    fn from(value: &str) -> (method: Method)
        ensures
            method == method_of(value@),
    {
        if same_text(value, "GET") {
            Method::GET
        } else if same_text(value, "POST") {
            Method::POST
        } else {
            Method::UNKNOWN
        }
    }
}

impl FromSpecImpl<&str> for Method {
    open spec fn obeys_from_spec() -> bool {
        true
    }

    open spec fn from_spec(value: &str) -> Method {
        method_of(value@)
    }
}

/// What a request asks for.
#[derive(Debug, PartialEq)]
pub enum Resource {
    /// The path of the request line, as it was written.
    PATH(String),
}

impl View for Resource {
    type V = Seq<char>;

    /// The path.
    open spec fn view(&self) -> Seq<char> {
        match self {
            Resource::PATH(path) => path@,
        }
    }
}

/// Why a text is no request.
#[derive(Debug, PartialEq, Eq, Clone, Copy, Structural)]
pub enum ParseError {
    /// There is no first line, or it has fewer than three tokens.
    MalformedRequestLine,
    /// A line of the header section has no colon.
    MalformedHeaderLine,
    /// The text ends before an empty line has closed the header section.
    UnterminatedHeaders,
}

/// A request.
#[derive(Debug, PartialEq)]
pub struct HttpRequest {
    /// The method that the request line names.
    pub method: Method,
    /// The version that the request line names.
    pub version: Version,
    /// What the request line asks for.
    pub resource: Resource,
    /// The fields of the header section. A name is taken as it is written,
    /// capitals and all; of two fields with one name the later one stays.
    pub headers: Headers,
    /// The body; empty where the request has none.
    pub body: String,
}

/// A request as plain values.
pub struct RequestView {
    /// The method.
    pub method: Method,
    /// The version.
    pub version: Version,
    /// The path that is asked for.
    pub path: Seq<char>,
    /// The header fields, from names to values.
    pub headers: Map<Seq<char>, Seq<char>>,
    /// The body.
    pub body: Seq<char>,
}

impl View for HttpRequest {
    type V = RequestView;

    /// The request as plain values, its header fields as a mapping.
    open spec fn view(&self) -> RequestView {
        RequestView {
            method: self.method,
            version: self.version,
            path: self.resource@,
            headers: self.headers@,
            body: self.body@,
        }
    }
}

/// What a request line says: its first three tokens between single spaces,
/// read as method, path and version. A line with fewer tokens says nothing.
pub open spec fn request_line(line: Seq<char>) -> Option<(Method, Seq<char>, Version)> {
    let tokens = split(line, ' ');
    if tokens.len() < 3 {
        None
    } else {
        Some((method_of(tokens[0]), tokens[1], version_of(tokens[2])))
    }
}

/// The field that a header line holds: the name is what stands before the
/// first colon, the value what follows it, trimmed. A line without a colon
/// holds none.
pub open spec fn header_line(line: Seq<char>) -> Option<Field> {
    let colon = first_index(line, ':');
    if 0 <= colon < line.len() {
        Some((line.take(colon), trim(line.skip(colon + 1))))
    } else {
        None
    }
}

/// The position of the first empty line, or `lines.len()` where there is
/// none.
pub open spec fn blank_line(lines: Seq<Seq<char>>) -> int {
    first_where(lines, is_blank())
}

/// Being an empty line.
pub open spec fn is_blank() -> spec_fn(Seq<char>) -> bool {
    |line: Seq<char>| line.len() == 0
}

/// The fields that the lines of a header section hold, in order.
pub open spec fn section_fields(section: Seq<Seq<char>>) -> Seq<Field> {
    section.map_values(|line: Seq<char>| header_line(line).unwrap())
}

/// The mapping that the lines of a header section give, a later field
/// replacing an earlier one of the same name; none where a line has no colon.
pub open spec fn header_fields(section: Seq<Seq<char>>) -> Option<Map<Seq<char>, Seq<char>>> {
    if forall|i: int| 0 <= i < section.len() ==> header_line(#[trigger] section[i]) is Some {
        Some(as_map(section_fields(section)))
    } else {
        None
    }
}

/// The request that a sequence of lines holds. The first line is the request
/// line; the lines after it, up to the first empty one, are the header
/// section; the line after that empty line, if there is one, is the body.
pub open spec fn parse_lines(lines: Seq<Seq<char>>) -> Result<RequestView, ParseError> {
    if lines.len() == 0 {
        Err(ParseError::MalformedRequestLine)
    } else {
        match request_line(lines[0]) {
            None => Err(ParseError::MalformedRequestLine),
            Some((method, path, version)) => {
                let rest = lines.skip(1);
                let end = blank_line(rest);
                match header_fields(rest.take(end)) {
                    None => Err(ParseError::MalformedHeaderLine),
                    Some(headers) => if end >= rest.len() {
                        Err(ParseError::UnterminatedHeaders)
                    } else {
                        Ok(
                            RequestView {
                                method,
                                version,
                                path,
                                headers,
                                body: if end + 1 < rest.len() {
                                    rest[end + 1]
                                } else {
                                    Seq::empty()
                                },
                            },
                        )
                    },
                }
            },
        }
    }
}

/// The request that a text holds.
pub open spec fn parse_text(raw: Seq<char>) -> Result<RequestView, ParseError> {
    parse_lines(lines(raw))
}

/// `blank_line` lies within `0..=lines.len()`, no line before it is empty,
/// and where it lies inside `lines` it points at an empty line.
pub proof fn lemma_blank_line(lines: Seq<Seq<char>>)
    ensures
        0 <= blank_line(lines) <= lines.len(),
        forall|j: int| 0 <= j < blank_line(lines) ==> lines[j].len() > 0,
        blank_line(lines) < lines.len() ==> lines[blank_line(lines)].len() == 0,
{
    lemma_first_where(lines, is_blank());
}

/// A position that has no empty line before it and is either the end of
/// `lines` or an empty line is the one that `blank_line` names.
pub proof fn lemma_blank_line_unique(lines: Seq<Seq<char>>, at: int)
    requires
        0 <= at <= lines.len(),
        forall|j: int| 0 <= j < at ==> lines[j].len() > 0,
        at < lines.len() ==> lines[at].len() == 0,
    ensures
        blank_line(lines) == at,
{
    lemma_first_where_unique(lines, is_blank(), at);
}

/// A header line is split at its first colon only. Whatever follows that
/// colon, further colons included, is the value, trimmed.
pub proof fn lemma_header_value_keeps_colons(name: Seq<char>, rest: Seq<char>)
    requires
        !name.contains(':'),
    ensures
        header_line(name + seq![':'] + rest) == Some((name, trim(rest))),
{
    let line = name + seq![':'] + rest;
    lemma_first_index_unique(line, ':', name.len() as int);
    assert(line.take(name.len() as int) =~= name);
    assert(line.skip(name.len() as int + 1) =~= rest);
}

/// A request line, header lines with distinct names, and an empty line with
/// nothing behind it make a request with exactly one header field for each
/// header line. The name of the field is what stands before the first colon
/// of its line, its value what stands behind that colon, trimmed. The body
/// is empty.
///
/// With two header lines of one name the later one replaces the earlier one,
/// and the request has fewer fields than header lines.
pub proof fn lemma_one_field_for_each_header_line(first: Seq<char>, section: Seq<Seq<char>>)
    requires
        request_line(first) is Some,
        forall|i: int| 0 <= i < section.len() ==> header_line(#[trigger] section[i]) is Some,
        names_distinct(section_fields(section)),
    ensures
        parse_lines(seq![first] + section + seq![Seq::<char>::empty()]) matches Ok(request) && {
            &&& request_line(first) == Some((request.method, request.path, request.version))
            &&& request.headers.dom().finite()
            &&& request.headers.dom().len() == section.len()
            &&& forall|i: int|
                0 <= i < section.len() ==> {
                    let colon = first_index(#[trigger] section[i], ':');
                    &&& request.headers.contains_key(section[i].take(colon))
                    &&& request.headers[section[i].take(colon)] == trim(section[i].skip(colon + 1))
                }
            &&& request.body == Seq::<char>::empty()
        },
{
    let all = seq![first] + section + seq![Seq::<char>::empty()];
    let rest = all.skip(1);
    let fields = section_fields(section);
    lemma_blank_line_unique(rest, section.len() as int);
    assert(rest.take(section.len() as int) =~= section);
    lemma_as_map_len(fields);
    assert forall|i: int| 0 <= i < section.len() implies {
        let colon = first_index(#[trigger] section[i], ':');
        &&& as_map(fields).contains_key(section[i].take(colon))
        &&& as_map(fields)[section[i].take(colon)] == trim(section[i].skip(colon + 1))
    } by {
        lemma_as_map_value(fields, i);
    }
}

/// The text in which a request line, header lines with distinct names and
/// an empty line each stand before a line ending is read as the request that
/// these lines make: one header field for each header line, and no body. The
/// lines hold no line feed; where the ending is a bare line feed, none of
/// them ends in a carriage return.
pub proof fn lemma_text_of_header_lines(
    first: Seq<char>,
    section: Seq<Seq<char>>,
    ending: Seq<char>,
)
    requires
        request_line(first) is Some,
        forall|i: int| 0 <= i < section.len() ==> header_line(#[trigger] section[i]) is Some,
        names_distinct(section_fields(section)),
        ending == lf() || ending == crlf(),
        !first.contains('\n'),
        forall|i: int| 0 <= i < section.len() ==> !(#[trigger] section[i]).contains('\n'),
        ending == lf() ==> first.len() == 0 || first.last() != '\r',
        ending == lf() ==> forall|i: int|
            0 <= i < section.len() ==> (#[trigger] section[i]).last() != '\r',
    ensures
        parse_text(join_lines(seq![first] + section + seq![Seq::<char>::empty()], ending))
            == parse_lines(seq![first] + section + seq![Seq::<char>::empty()]),
{
    let all = seq![first] + section + seq![Seq::<char>::empty()];
    assert forall|i: int| 0 <= i < all.len() implies !(#[trigger] all[i]).contains('\n') by {
        if 1 <= i <= section.len() {
            assert(all[i] == section[i - 1]);
        }
    }
    if ending == lf() {
        assert forall|i: int| 0 <= i < all.len() implies (#[trigger] all[i]).len() == 0
            || all[i].last() != '\r' by {
            if 1 <= i <= section.len() {
                assert(all[i] == section[i - 1]);
            }
        }
    }
    lemma_lines_of_joined(all, ending, Seq::empty());
    assert(join_lines(all, ending) + Seq::<char>::empty() =~= join_lines(all, ending));
}

/// Parsing has no state: whatever two calls of `parse` return for one text
/// is the same request, or the same error.
pub proof fn lemma_parse_is_repeatable(
    raw: &str,
    once: Result<HttpRequest, ParseError>,
    again: Result<HttpRequest, ParseError>,
)
    requires
        call_ensures(HttpRequest::parse, (raw,), once),
        call_ensures(HttpRequest::parse, (raw,), again),
    ensures
        match (once, again) {
            (Ok(a), Ok(b)) => a@ == b@,
            (Err(a), Err(b)) => a == b,
            _ => false,
        },
{
}

impl HttpRequest {
    /// Reads a request line: method, path and version are its first three
    /// tokens between single spaces. A line with fewer tokens is refused.
    pub fn parse_req_line(line: &str) -> (parts: Option<(Method, Resource, Version)>)
        ensures
            match parts {
                Some((method, resource, version)) => request_line(line@) == Some(
                    (method, resource@, version),
                ),
                None => request_line(line@) is None,
            },
    {
        let chars = chars_of(line);
        let n: usize = chars.len();
        assert(chars@.subrange(0, n as int) =~= line@);
        let first = find_char(chars.as_slice(), 0, n, ' ');
        if first == n {
            return None;
        }
        let ghost after_first = line@.skip(first + 1);
        proof {
            lemma_split(after_first, ' ');
        }
        let second = find_char(chars.as_slice(), first + 1, n, ' ');
        if second == n {
            return None;
        }
        let ghost after_second = line@.skip(second + 1);
        assert(after_second =~= after_first.skip(second - first));
        let third = find_char(chars.as_slice(), second + 1, n, ' ');
        let method = Method::from(line.substring_char(0, first));
        let path = line.substring_char(first + 1, second).to_owned();
        let version = Version::from(line.substring_char(second + 1, third));
        assert(split(line@, ' ')[2] =~= line@.subrange(second + 1, third as int));
        Some((method, Resource::PATH(path), version))
    }

    /// Reads a header line: the name is what stands before the first colon,
    /// the value what follows it, without the whitespace around it. A line
    /// without a colon is refused.
    pub fn parse_header_line(line: &str) -> (field: Option<(String, String)>)
        ensures
            match field {
                Some((name, value)) => header_line(line@) == Some((name@, value@)),
                None => header_line(line@) is None,
            },
    {
        let chars = chars_of(line);
        let n: usize = chars.len();
        assert(chars@.subrange(0, n as int) =~= line@);
        let colon = find_char(chars.as_slice(), 0, n, ':');
        if colon == n {
            return None;
        }
        let (start, end) = trim_bounds(chars.as_slice(), colon + 1, n);
        let name = line.substring_char(0, colon).to_owned();
        let value = line.substring_char(start, end).to_owned();
        Some((name, value))
    }

    /// Reads a request from the text of a connection. The first line is the
    /// request line, the lines up to the first empty one are header fields,
    /// and the line behind that empty line is the body; lines behind the
    /// body are not read.
    ///
    /// The text is refused where it has no request line or one with fewer
    /// than three tokens, where a header line has no colon, and where it ends
    /// before an empty line has closed the header section.
    pub fn parse(raw: &str) -> (parsed: Result<HttpRequest, ParseError>)
        ensures
            match parsed {
                Ok(request) => parse_text(raw@) == Ok::<RequestView, ParseError>(request@),
                Err(error) => parse_text(raw@) == Err::<RequestView, ParseError>(error),
            },
    {
        let found = lines_of(raw);
        let count: usize = found.len();
        let ghost all = lines(raw@);
        if count == 0 {
            return Err(ParseError::MalformedRequestLine);
        }
        let (method, resource, version) = match Self::parse_req_line(found[0]) {
            Some(parts) => parts,
            None => {
                return Err(ParseError::MalformedRequestLine);
            },
        };
        let ghost rest = all.skip(1);
        let mut headers = Headers::new();
        let mut at: usize = 1;
        loop
            invariant
                1 <= at <= count,
                count == found@.len(),
                texts(found@) == all,
                all == lines(raw@),
                rest == all.skip(1),
                request_line(all[0]) == Some((method, resource@, version)),
                forall|j: int| 0 <= j < at - 1 ==> rest[j].len() > 0,
                header_fields(rest.take(at - 1)) == Some(headers@),
            ensures
                at < count,
                rest[at - 1].len() == 0,
            decreases count - at,
        {
            if at == count {
                proof {
                    lemma_blank_line_unique(rest, at - 1);
                }
                return Err(ParseError::UnterminatedHeaders);
            }
            let line = found[at];
            if line.is_empty() {
                break;
            }
            match Self::parse_header_line(line) {
                Some((name, value)) => {
                    headers.insert(name, value);
                    proof {
                        let before = rest.take(at - 1);
                        let now = rest.take(at as int);
                        assert forall|i: int| 0 <= i < now.len() implies header_line(
                            #[trigger] now[i],
                        ) is Some by {
                            if i < at - 1 {
                                assert(now[i] == before[i]);
                            }
                        }
                        assert(section_fields(now).drop_last() =~= section_fields(before));
                    }
                },
                None => {
                    proof {
                        lemma_blank_line(rest);
                        assert(rest.take(blank_line(rest))[at - 1] == rest[at - 1]);
                    }
                    return Err(ParseError::MalformedHeaderLine);
                },
            }
            at += 1;
        }
        proof {
            lemma_blank_line_unique(rest, at - 1);
        }
        let body = if at + 1 < count {
            found[at + 1].to_owned()
        } else {
            String::new()
        };
        Ok(HttpRequest { method, version, resource, headers, body })
    }
}

} // verus!

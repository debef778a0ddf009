//! The handlers that answer a routed request. What a handler needs from
//! outside (the content of a file, an encoded record) is handed to it.

use crate::headers::{lemma_position_of_unique, Field, Headers};
use crate::http_request::HttpRequest;
use crate::http_response::{default_fields, given_text, HttpResponse, ResponseView};
use vstd::prelude::*;
use vstd::string::*;

verus! {

/// The file that the static handler serves.
pub const INDEX_PAGE: &'static str = "index.html";

/// The record that the service handler starts from, as JSON.
pub const SERVICE_RECORD: &'static str = "{\"name\": \"asuka\", \"age\": 16}";

/// The directory that files are served from: the configured one, or
/// `public` under `base` where none is configured.
pub open spec fn public_path_of(configured: Option<Seq<char>>, base: Seq<char>) -> Seq<char> {
    match configured {
        Some(path) => path,
        None => base + "/public"@,
    }
}

/// The path of the file `filename` in the directory `public_path`.
pub open spec fn file_path_of(public_path: Seq<char>, filename: Seq<char>) -> Seq<char> {
    public_path + "/"@ + filename
}

/// The directory that files are served from: the configured one, or
/// `public` under `base` where none is configured.
pub fn public_path(configured: Option<String>, base: &str) -> (path: String)
    ensures
        path@ == public_path_of(given_text(configured), base@),
{
    match configured {
        Some(path) => path,
        None => {
            let mut path = base.to_owned();
            path.append("/public");
            path
        },
    }
}

/// The path of the file `filename` in the directory `public_path`.
pub fn file_path(public_path: &str, filename: &str) -> (path: String)
    ensures
        path@ == file_path_of(public_path@, filename@),
{
    let mut path = public_path.to_owned();
    path.append("/");
    path.append(filename);
    path
}

/// Answers a request.
pub trait Handler {
    /// The response that the handler gives when `content` is what was
    /// prepared for it.
    spec fn answer(content: Option<Seq<char>>) -> ResponseView;

    /// Answers `req` with `content` as the body.
    fn handle(req: &HttpRequest, content: Option<String>) -> (response: HttpResponse<'static>)
        ensures
            response@ == Self::answer(given_text(content)),
    ;
}

/// Serves a page: `content` is the text of the file `INDEX_PAGE`, or nothing
/// where it could not be read.
pub struct StaticHandler;

impl Handler for StaticHandler {
    /// `200 OK` with the one header field `Content-Type: text/html`; the body
    /// is the page, and is missing where the page is.
    open spec fn answer(content: Option<Seq<char>>) -> ResponseView {
        ResponseView {
            version: "HTTP/1.1"@,
            status_code: "200"@,
            status_text: "OK"@,
            headers: default_fields(),
            body: content,
        }
    }

    fn handle(_req: &HttpRequest, content: Option<String>) -> (response: HttpResponse<'static>) {
        HttpResponse::new("200", None, content)
    }
}

/// The header fields of a response that carries JSON.
pub open spec fn json_fields() -> Seq<Field> {
    seq![("Content-Type"@, "application/json"@)]
}

/// Serves a record: `content` is the record as JSON, or nothing where it
/// could not be encoded.
pub struct ServiceHandler;

impl Handler for ServiceHandler {
    /// `200 OK` with the one header field `Content-Type: application/json`;
    /// the body is the encoded record.
    open spec fn answer(content: Option<Seq<char>>) -> ResponseView {
        ResponseView {
            version: "HTTP/1.1"@,
            status_code: "200"@,
            status_text: "OK"@,
            headers: json_fields(),
            body: content,
        }
    }

    fn handle(_req: &HttpRequest, content: Option<String>) -> (response: HttpResponse<'static>) {
        let mut header = Headers::new();
        header.insert("Content-Type".to_owned(), "application/json".to_owned());
        proof {
            reveal_strlit("Content-Type");
            reveal_strlit("Content-Length");
            assert("Content-Type"@[8] != "Content-Length"@[8]);
            lemma_position_of_unique(json_fields(), "Content-Length"@, 1);
        }
        HttpResponse::new("200", Some(header), content)
    }
}

/// The record that the service handler serves.
#[derive(Debug)]
pub struct User {
    name: String,
    age: i32,
}

impl View for User {
    type V = (Seq<char>, int);

    /// Name and age.
    closed spec fn view(&self) -> (Seq<char>, int) {
        (self.name@, self.age as int)
    }
}

impl User {
    /// The record of `name` at the age `age`.
    pub fn new(name: String, age: i32) -> (user: User)
        ensures
            user@ == (name@, age as int),
    {
        User { name, age }
    }

    /// The name.
    pub fn name(&self) -> (name: &str)
        ensures
            name@ == self@.0,
    {
        self.name.as_str()
    }

    /// The age.
    pub fn age(&self) -> (age: i32)
        ensures
            age == self@.1,
    {
        self.age
    }
}

impl ServiceHandler {
    /// The record as the service hands it out: ` haha` behind the name, and
    /// one year older.
    pub fn revise(user: User) -> (revised: User)
        requires
            user@.1 < i32::MAX,
        ensures
            revised@ == (user@.0 + " haha"@, user@.1 + 1),
    {
        let mut revised = user;
        revised.name.append(" haha");
        revised.age += 1;
        revised
    }
}

} // verus!

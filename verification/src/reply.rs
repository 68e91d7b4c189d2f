//! Answers to requests.

use vstd::prelude::*;

verus! {

/// An answer to a request.
pub enum Reply<T> {
    /// A document, with its content type.
    Document { content_type: T, body: T },
    /// A page in HTML.
    Html(T),
    /// An error, with its status.
    Error { message: T, status: u16 },
}

impl View for Reply<String> {
    type V = Reply<Seq<char>>;

    open spec fn view(&self) -> Reply<Seq<char>> {
        match *self {
            Reply::Document { content_type, body } => Reply::Document {
                content_type: content_type@,
                body: body@,
            },
            Reply::Html(page) => Reply::Html(page@),
            Reply::Error { message, status } => Reply::Error { message: message@, status },
        }
    }
}

/// A document in plain text.
pub open spec fn plain(body: Seq<char>) -> Reply<Seq<char>> {
    Reply::Document { content_type: "text/plain;charset=utf-8"@, body }
}

/// Makes a document in plain text.
pub fn plain_document(body: String) -> (r: Reply<String>)
    ensures
        r@ == plain(body@),
{
    Reply::Document { content_type: "text/plain;charset=utf-8".to_owned(), body }
}

/// The answer where nothing is found.
pub open spec fn missing() -> Reply<Seq<char>> {
    Reply::Error { message: "Not Found"@, status: 404 }
}

/// Makes the answer where nothing is found.
pub fn not_found() -> (r: Reply<String>)
    ensures
        r@ == missing(),
{
    Reply::Error { message: "Not Found".to_owned(), status: 404 }
}

/// A document in plain text carries its text and nothing else, and says how it is encoded.
pub proof fn law_plain_document_carries_its_text(body: Seq<char>)
    ensures
        plain(body) matches Reply::Document { content_type, body: carried } && carried == body
            && content_type == "text/plain;charset=utf-8"@,
{
}

/// An answer is seen as it is.
pub proof fn law_replies_are_seen_as_they_are(a: String, b: String, status: u16)
    ensures
        (Reply::Document { content_type: a, body: b })@ == (Reply::Document {
            content_type: a@,
            body: b@,
        }),
        Reply::Html(a)@ == Reply::Html(a@),
        (Reply::Error { message: a, status })@ == (Reply::Error { message: a@, status }),
        missing() == (Reply::Error { message: "Not Found"@, status: 404 }),
{
}

} // verus!

//! The reply to one request, from the actor's answer.

use vstd::prelude::*;

verus! {

/// The actor's answer to a request.
pub enum Disposition {
    /// The path was registered; the file goes out under this name.
    Found(String),
    NotFound,
}

/// The internal coordination failed: the command could not be queued, or no
/// answer came back. The request fails with a server error.
pub struct CoordinationFailure {
    pub reason: String,
}

/// A failure with the given reason.
pub fn other(desc: &str) -> (e: CoordinationFailure)
    ensures
        e.reason@ == desc@,
{
    CoordinationFailure { reason: desc.to_owned() }
}

/// Status and headers of a reply. A reply with a `Content-Disposition`
/// value streams the file as its body; one without has an empty body.
pub struct Reply {
    pub status: u16,
    pub content_disposition: Option<String>,
}

/// The `Content-Disposition` value that offers a download under `name`.
pub open spec fn attachment_value(name: Seq<char>) -> Seq<char> {
    "attachment; filename=\""@ + name + "\""@
}

/// Relies on hyper's `Display` for `ContentDisposition`: an attachment with a
/// filename in the UTF-8 charset and no language tag is written as
/// `attachment; filename="<name>"`, the name unescaped.
#[verifier::external_body]
fn attachment_header(name: &str) -> (r: String)
    ensures
        r@ == attachment_value(name@),
{
    let header = hyper::header::ContentDisposition {
        disposition: hyper::header::DispositionType::Attachment,
        parameters: vec![hyper::header::DispositionParam::Filename(
            hyper::header::Charset::Ext("UTF-8".to_owned()),
            None,
            name.as_bytes().to_vec(),
        )],
    };
    header.to_string()
}

/// The reply to a request, from the actor's answer, or `None` where no answer
/// came: a found file is served with status 200 under its name, an unknown
/// path gets 404 with an empty body, and a missing answer is a failure.
pub fn respond(answer: Option<Disposition>) -> (r: Result<Reply, CoordinationFailure>)
    ensures
        match answer {
            Some(Disposition::Found(name)) => r matches Ok(reply) && (reply.status == 200
                && (reply.content_disposition matches Some(h) && h@ == attachment_value(name@))),
            Some(Disposition::NotFound) => r matches Ok(reply) && (reply.status == 404
                && reply.content_disposition is None),
            None => r matches Err(e) && e.reason@ == "can't find file"@,
        },
{
    match answer {
        Some(Disposition::Found(name)) => {
            let h = attachment_header(name.as_str());
            Ok(Reply { status: 200, content_disposition: Some(h) })
        },
        Some(Disposition::NotFound) => Ok(Reply { status: 404, content_disposition: None }),
        None => Err(other("can't find file")),
    }
}

} // verus!

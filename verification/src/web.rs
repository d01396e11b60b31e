//! A small HTTP server's answers: files under a directory, and the picture.

use vstd::prelude::*;

use crate::paths;
use crate::text;

verus! {

/// The first line of a text.
pub open spec fn first_line(s: Seq<char>) -> Seq<char> {
    text::pieces(s, '\n')[0]
}

/// What a request asks for: the second word of its first line, or the root.
pub open spec fn asked_path(req: Seq<char>) -> Seq<char> {
    let parts = text::words(first_line(req));
    if parts.len() >= 2 {
        parts[1]
    } else {
        "/"@
    }
}

pub fn parse_path(req: &str) -> (path: String)
    ensures
        path@ == asked_path(req@),
{
    let lines = text::split(req, '\n');
    assert(text::texts_view(lines@)[0] == lines@[0]@);
    let parts = text::word_list(lines[0].as_str());
    if parts.len() >= 2 {
        assert(text::texts_view(parts@)[1] == parts@[1]@);
        parts[1].clone()
    } else {
        "/".to_owned()
    }
}

/// The text without the slashes at its front.
pub open spec fn without_slashes(s: Seq<char>) -> Seq<char>
    decreases s.len(),
{
    if s.len() > 0 && s[0] == '/' {
        without_slashes(s.drop_first())
    } else {
        s
    }
}

fn trim_slashes(s: &str) -> (out: String)
    ensures
        out@ == without_slashes(s@),
{
    let chars = text::chars_of(s);
    let mut i: usize = 0;
    assert(chars@.skip(0) =~= chars@);
    while i < chars.len() && chars[i] == '/'
        invariant
            i <= chars@.len(),
            without_slashes(chars@.skip(i as int)) == without_slashes(chars@),
        decreases chars@.len() - i,
    {
        assert(chars@.skip(i as int).drop_first() =~= chars@.skip(i + 1));
        i += 1;
    }
    assert(chars@.skip(i as int) =~= chars@.subrange(i as int, chars@.len() as int));
    text::text_of(&chars, i, chars.len())
}

/// What is served.
#[derive(Debug, Clone)]
pub enum Served {
    Picture,
    File { path: String },
}

/// What is served for a path.
pub open spec fn serves(path: Seq<char>, root: Seq<char>, what: Served) -> bool {
    if path == "/frame"@ {
        what is Picture
    } else {
        &&& what is File
        &&& what->path@ == paths::joined(
            root,
            without_slashes(
                if path == "/"@ {
                    "/index.html"@
                } else {
                    path
                },
            ),
        )
    }
}

/// What a request is answered with: the picture, or a file under a directory;
/// the root is its index page.
pub fn served(req: &str, root: &str) -> (what: Served)
    ensures
        serves(asked_path(req@), root@, what),
{
    let path = parse_path(req);
    if text::same_text(path.as_str(), "/frame") {
        return Served::Picture;
    }
    let name = if text::same_text(path.as_str(), "/") {
        trim_slashes("/index.html")
    } else {
        trim_slashes(path.as_str())
    };
    Served::File { path: paths::join(root, name.as_str()) }
}

/// What a file is, by its extension.
pub open spec fn content_type(path: Seq<char>) -> Seq<char> {
    if paths::extension(path) == Some("html"@) {
        "text/html; charset=utf-8"@
    } else if paths::extension(path) == Some("js"@) {
        "text/javascript; charset=utf-8"@
    } else {
        "application/octet-stream"@
    }
}

/// The head of the answer with the picture of so many bytes, or with none.
pub open spec fn picture_head_text(len: Option<usize>) -> Seq<char> {
    match len {
        Some(n) => "HTTP/1.1 200 OK\r\nContent-Type: image/png\r\nContent-Length: "@
            + text::decimal(n as nat) + "\r\nCache-Control: no-store\r\n\r\n"@,
        None => "HTTP/1.1 503 Service Unavailable\r\nContent-Length: 0\r\n\r\n"@,
    }
}

pub fn picture_head(len: Option<usize>) -> (head: String)
    ensures
        head@ == picture_head_text(len),
{
    match len {
        Some(n) => {
            let mut head =
                "HTTP/1.1 200 OK\r\nContent-Type: image/png\r\nContent-Length: ".to_owned();
            text::push_decimal(&mut head, n as u64);
            head.append("\r\nCache-Control: no-store\r\n\r\n");
            head
        },
        None => "HTTP/1.1 503 Service Unavailable\r\nContent-Length: 0\r\n\r\n".to_owned(),
    }
}

/// The head of the answer with a file of so many bytes, or with none.
pub open spec fn file_head_text(path: Seq<char>, len: Option<usize>) -> Seq<char> {
    match len {
        Some(n) => "HTTP/1.1 200 OK\r\nContent-Type: "@ + content_type(path)
            + "\r\nContent-Length: "@ + text::decimal(n as nat) + "\r\n\r\n"@,
        None => "HTTP/1.1 404 Not Found\r\nContent-Length: 0\r\n\r\n"@,
    }
}

pub fn file_head(path: &str, len: Option<usize>) -> (head: String)
    ensures
        head@ == file_head_text(path@, len),
{
    match len {
        Some(n) => {
            let mut head = "HTTP/1.1 200 OK\r\nContent-Type: ".to_owned();
            match paths::extension_of(path) {
                Some(ext) => {
                    if text::same_text(ext.as_str(), "html") {
                        head.append("text/html; charset=utf-8");
                    } else if text::same_text(ext.as_str(), "js") {
                        head.append("text/javascript; charset=utf-8");
                    } else {
                        head.append("application/octet-stream");
                    }
                },
                None => head.append("application/octet-stream"),
            }
            head.append("\r\nContent-Length: ");
            text::push_decimal(&mut head, n as u64);
            head.append("\r\n\r\n");
            head
        },
        None => "HTTP/1.1 404 Not Found\r\nContent-Length: 0\r\n\r\n".to_owned(),
    }
}

} // verus!

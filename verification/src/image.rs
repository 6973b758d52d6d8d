//! Uploaded images and their previews.

use crate::route::{post, table, Method, Route};
use vstd::prelude::*;
use vstd::string::StringExecFns;

verus! {

/// The largest upload that is taken, in bytes: 200 MiB.
pub const MAX_UPLOAD_BYTES: u64 = 209_715_200;

/// The width and the height that a preview does not exceed, in pixels.
pub const PREVIEW_EDGE: u32 = 300;

/// The JPEG quality of a preview.
pub const PREVIEW_QUALITY: u8 = 40;

/// The names one after the other, with a line feed between each two.
pub open spec fn listed(names: Seq<String>) -> Seq<char>
    decreases names.len(),
{
    if names.len() == 0 {
        Seq::<char>::empty()
    } else if names.len() == 1 {
        names.last()@
    } else {
        listed(names.drop_last()) + seq!['\n'] + names.last()@
    }
}

/// The list of the images, from the names of their files: one name to a
/// line, with no line feed behind the last.
pub fn list(names: &Vec<String>) -> (r: String)
    ensures
        r@ == listed(names@),
{
    let mut ret = String::new();
    let mut i: usize = 0;
    proof {
        reveal_strlit("\n");
        assert(names@.take(0) =~= Seq::<String>::empty());
    }
    while i < names.len()
        invariant
            i <= names@.len(),
            ret@ == listed(names@.take(i as int)),
            "\n"@ == seq!['\n'],
        decreases names@.len() - i,
    {
        proof {
            assert(names@.take(i + 1).drop_last() =~= names@.take(i as int));
            assert(names@.take(i + 1).last() == names@[i as int]);
        }
        if i > 0 {
            ret.append("\n");
        }
        ret.append(names[i].as_str());
        i += 1;
    }
    assert(names@.take(names@.len() as int) =~= names@);
    ret
}

/// Where the image of this file name is kept.
pub fn image_path(file_name: &str) -> (r: String)
    ensures
        r@ == "./images/"@ + file_name@,
{
    let mut path = String::from_str("./images/");
    path.append(file_name);
    path
}

/// Where the preview of the image of this file name is kept.
pub fn preview_path(file_name: &str) -> (r: String)
    ensures
        r@ == "./previews/"@ + file_name@,
{
    let mut path = String::from_str("./previews/");
    path.append(file_name);
    path
}

/// The routes for images: upload, listing, and fetching an image or its
/// preview by name, all with `POST`.
pub fn routes() -> (r: Vec<Route>)
    ensures
        table(r@) == seq![
            (Method::Post, "/upload"@),
            (Method::Post, "/list"@),
            (Method::Post, "/get/<image>"@),
            (Method::Post, "/preview/<image>"@),
        ],
{
    let mut r: Vec<Route> = Vec::new();
    r.push(post("/upload"));
    r.push(post("/list"));
    r.push(post("/get/<image>"));
    r.push(post("/preview/<image>"));
    assert(table(r@) =~= seq![
        (Method::Post, "/upload"@),
        (Method::Post, "/list"@),
        (Method::Post, "/get/<image>"@),
        (Method::Post, "/preview/<image>"@),
    ]);
    r
}

} // verus!

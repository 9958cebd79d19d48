//! Static assets: a file is looked up by the last segment of the request
//! path and served with a content type that goes by its suffix.

use crate::message::header;
use crate::message::Header;
use crate::message::Response;
use crate::message::ResponseView;
use crate::text::last_segment;
use crate::text::last_segment_of;
use crate::text::str_ends_with;
use crate::text::str_eq;
use vstd::prelude::*;

verus! {

/// One file that the gateway serves itself.
#[derive(Debug, Clone, PartialEq, Eq)]
pub struct StaticFile {
    pub name: String,
    pub content: Vec<u8>,
}

impl View for StaticFile {
    type V = (Seq<char>, Seq<u8>);

    open spec fn view(&self) -> (Seq<char>, Seq<u8>) {
        (self.name@, self.content@)
    }
}

/// The name and content of each file of a table, in order.
pub open spec fn file_views(files: Seq<StaticFile>) -> Seq<(Seq<char>, Seq<u8>)> {
    files.map_values(|f: StaticFile| f@)
}

/// The content of the first file of `files` whose name is exactly `name`.
pub open spec fn file_content(files: Seq<(Seq<char>, Seq<u8>)>, name: Seq<char>) -> Option<Seq<u8>>
    decreases files.len(),
{
    if files.len() == 0 {
        None
    } else if files[0].0 == name {
        Some(files[0].1)
    } else {
        file_content(files.drop_first(), name)
    }
}

/// The content type of a file, by the suffix of its name.
pub open spec fn content_type_of(name: Seq<char>) -> Seq<char> {
    if ".js"@.is_suffix_of(name) {
        "application/javascript"@
    } else if ".map"@.is_suffix_of(name) {
        "application/octet-stream"@
    } else {
        "text/plain"@
    }
}

/// The answer to a request for the file `name`: its content with its
/// content type, or 404 with nothing else where the table holds no such
/// file.
pub open spec fn file_response(name: Seq<char>, files: Seq<(Seq<char>, Seq<u8>)>) -> ResponseView {
    match file_content(files, name) {
        Some(content) => ResponseView {
            status: 200,
            headers: seq![("Content-Type"@, content_type_of(name))],
            body: content,
        },
        None => ResponseView { status: 404, headers: Seq::empty(), body: Seq::empty() },
    }
}

/// The answer to a request for a static asset: that for the file named by
/// the last segment of `path`.
pub open spec fn static_response(path: Seq<char>, files: Seq<(Seq<char>, Seq<u8>)>) -> ResponseView {
    file_response(last_segment(path), files)
}

/// A table whose first `i` files are not named `name` holds for that name
/// what the rest of the table holds.
proof fn lemma_file_content_skips(files: Seq<(Seq<char>, Seq<u8>)>, name: Seq<char>, i: int)
    requires
        0 <= i <= files.len(),
        forall|k: int| 0 <= k < i ==> (#[trigger] files[k]).0 != name,
    ensures
        file_content(files, name) == file_content(files.skip(i), name),
    decreases i,
{
    if i == 0 {
        assert(files.skip(0) =~= files);
    } else {
        let rest = files.drop_first();
        assert(files[0].0 != name);
        assert forall|k: int| 0 <= k < i - 1 implies (#[trigger] rest[k]).0 != name by {
            assert(rest[k] == files[k + 1]);
        }
        lemma_file_content_skips(rest, name, i - 1);
        assert(rest.skip(i - 1) =~= files.skip(i));
    }
}

/// No two files of the table have the same name.
pub open spec fn names_are_distinct(files: Seq<(Seq<char>, Seq<u8>)>) -> bool {
    forall|i: int, j: int|
        0 <= i < j < files.len() ==> (#[trigger] files[i]).0 != (#[trigger] files[j]).0
}

/// In a table without repeated names, a name stands for the content of the
/// one file that bears it, wherever in the table that file is.
pub proof fn lemma_one_file_per_name(files: Seq<(Seq<char>, Seq<u8>)>, i: int)
    requires
        names_are_distinct(files),
        0 <= i < files.len(),
    ensures
        file_content(files, files[i].0) == Some(files[i].1),
{
    let name = files[i].0;
    assert forall|k: int| 0 <= k < i implies (#[trigger] files[k]).0 != name by {
        assert(files[k].0 != files[i].0);
    }
    lemma_file_content_skips(files, name, i);
    assert(files.skip(i)[0] == files[i]);
}

/// The content type to serve a file named `name` with.
pub fn content_type_for(name: &str) -> (ctype: &'static str)
    ensures
        ctype@ == content_type_of(name@),
{
    if str_ends_with(name, ".js") {
        "application/javascript"
    } else if str_ends_with(name, ".map") {
        "application/octet-stream"
    } else {
        "text/plain"
    }
}

/// The index of the first file of `files` named exactly `name`; `None`
/// where no file has that name.
pub fn find_file(files: &Vec<StaticFile>, name: &str) -> (r: Option<usize>)
    ensures
        match r {
            Some(i) => {
                &&& i < files.len()
                &&& files[i as int].name@ == name@
                &&& forall|k: int| 0 <= k < i ==> files[k].name@ != name@
                &&& file_content(file_views(files@), name@) == Some(files[i as int].content@)
            },
            None => {
                &&& forall|k: int| 0 <= k < files.len() ==> files[k].name@ != name@
                &&& file_content(file_views(files@), name@).is_none()
            },
        },
{
    let ghost views = file_views(files@);
    let mut i: usize = 0;
    while i < files.len()
        invariant
            i <= files.len(),
            views == file_views(files@),
            forall|k: int| 0 <= k < i ==> (#[trigger] views[k]).0 != name@,
        decreases files.len() - i,
    {
        if str_eq(files[i].name.as_str(), name) {
            proof {
                lemma_file_content_skips(views, name@, i as int);
                assert(views.skip(i as int)[0] == views[i as int]);
                assert forall|k: int| 0 <= k < i implies files[k].name@ != name@ by {
                    assert(views[k].0 == files[k].name@);
                }
            }
            return Some(i);
        }
        i += 1;
    }
    proof {
        lemma_file_content_skips(views, name@, i as int);
        assert(views.skip(i as int) =~= Seq::empty());
        assert forall|k: int| 0 <= k < files.len() implies files[k].name@ != name@ by {
            assert(views[k].0 == files[k].name@);
        }
    }
    None
}

/// Serves the file `name` from the table `files`.
pub fn serve_file(name: &str, files: &Vec<StaticFile>) -> (r: Response)
    ensures
        r@ == file_response(name@, file_views(files@)),
{
    match find_file(files, name) {
        Some(i) => {
            let mut headers: Vec<Header> = Vec::new();
            headers.push(header("Content-Type", content_type_for(name)));
            let r = Response { status: 200, headers, body: files[i].content.clone() };
            assert(r@.headers =~= seq![("Content-Type"@, content_type_of(name@))]);
            r
        },
        None => {
            let r = Response { status: 404, headers: Vec::new(), body: Vec::new() };
            assert(r@.headers =~= Seq::empty());
            assert(r@.body =~= Seq::empty());
            r
        },
    }
}

/// Serves the static asset that `path` names from the table `files`.
pub fn handle_static(path: &str, files: &Vec<StaticFile>) -> (r: Response)
    ensures
        r@ == static_response(path@, file_views(files@)),
{
    let name = last_segment_of(path);
    serve_file(name.as_str(), files)
}

} // verus!

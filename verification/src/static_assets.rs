//! The files that the control panel serves.

use vstd::prelude::*;
use crate::text::{ends_with, same_text};

verus! {

/// A file that is part of the program.
#[derive(Debug)]
pub struct StaticAsset {
    pub path: String,
    pub data: Vec<u8>,
}

/// The content of the file at `path`, if there is such a file. Of several files with the
/// same path the first counts.
pub fn get_static_file<'a>(assets: &'a Vec<StaticAsset>, path: &str) -> (r: Option<&'a Vec<u8>>)
    ensures
        match r {
            Some(data) => exists|i: int| #![trigger assets@[i]]
                {
                    &&& 0 <= i < assets@.len()
                    &&& assets@[i].path@ == path@
                    &&& assets@[i].data@ == data@
                    &&& forall|j: int| 0 <= j < i ==> (#[trigger] assets@[j]).path@ != path@
                },
            None => forall|i: int| 0 <= i < assets@.len() ==> (#[trigger] assets@[i]).path@ != path@,
        },
{
    let mut i: usize = 0;
    while i < assets.len()
        invariant
            i <= assets@.len(),
            forall|j: int| 0 <= j < i ==> (#[trigger] assets@[j]).path@ != path@,
        decreases assets@.len() - i,
    {
        if same_text(assets[i].path.as_str(), path) {
            return Some(&assets[i].data);
        }
        i = i + 1;
    }
    None
}

/// The content type of the file at `path`, by how the path ends.
pub open spec fn content_type(path: Seq<char>) -> Seq<char> {
    if ".css"@.is_suffix_of(path) {
        "text/css"@
    } else if ".js"@.is_suffix_of(path) {
        "application/javascript"@
    } else if ".html"@.is_suffix_of(path) {
        "text/html"@
    } else {
        "application/octet-stream"@
    }
}

pub fn get_content_type(path: &str) -> (r: &'static str)
    ensures
        r@ == content_type(path@),
{
    if ends_with(path, ".css") {
        "text/css"
    } else if ends_with(path, ".js") {
        "application/javascript"
    } else if ends_with(path, ".html") {
        "text/html"
    } else {
        "application/octet-stream"
    }
}

proof fn lemma_ending(stem: Seq<char>, ending: Seq<char>)
    ensures
        ending.is_suffix_of(stem + ending),
{
    assert((stem + ending).subrange(stem.len() as int, (stem + ending).len() as int) =~= ending);
}

/// Whatever a file is called, its ending alone gives its content type: style sheets, scripts and
/// pages have their own, and every other file is mere bytes.
pub proof fn law_ending_gives_content_type(stem: Seq<char>, path: Seq<char>)
    ensures
        content_type(stem + ".css"@) == "text/css"@,
        content_type(stem + ".js"@) == "application/javascript"@,
        content_type(stem + ".html"@) == "text/html"@,
        !".css"@.is_suffix_of(path) && !".js"@.is_suffix_of(path) && !".html"@.is_suffix_of(path)
            ==> content_type(path) == "application/octet-stream"@,
{
    reveal_strlit(".css");
    reveal_strlit(".js");
    reveal_strlit(".html");
    lemma_ending(stem, ".css"@);
    lemma_ending(stem, ".js"@);
    lemma_ending(stem, ".html"@);
    let script = stem + ".js"@;
    let page = stem + ".html"@;
    assert(script.last() == 's' && script[script.len() - 2] == 'j');
    assert(page.last() == 'l');
    if ".css"@.is_suffix_of(script) {
        assert(script.subrange(script.len() - 4, script.len() as int)[2] == 's');
    }
    if ".css"@.is_suffix_of(page) {
        assert(page.subrange(page.len() - 4, page.len() as int)[3] == 's');
    }
    if ".js"@.is_suffix_of(page) {
        assert(page.subrange(page.len() - 3, page.len() as int)[2] == 's');
    }
}

} // verus!

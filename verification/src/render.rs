//! The served index page: substitutes the offered note and the numbered
//! download list into the page template. The received note is mirrored
//! only in the desktop window and deliberately never appears here.

use vstd::prelude::*;
use vstd::utf8::decode_utf8;
use vstd::utf8::valid_utf8;
use crate::assets::AssetStore;
use crate::assets::asset_lookup;
use crate::assets::get_web_string;
use crate::catalog::get_filename;
use crate::catalog::spec_display_name;
use crate::numbers::spec_udec;
use crate::numbers::usize_to_dec;
use crate::session::FileSender;
use crate::text::replace_all;
use crate::text::spec_replace;

verus! {

/// One entry of the download list: a link to `data/download/<i>` labelled
/// with the file's display name.
pub open spec fn spec_file_item(i: nat, path: Seq<char>) -> Seq<char> {
    "<li><a href=\"data/download/"@ + spec_udec(i) + "\">"@ + spec_display_name(path)
        + "</a></li>"@
}

/// The first `k` entries of the download list, in catalog order.
pub open spec fn spec_file_items(paths: Seq<Seq<char>>, k: int) -> Seq<char>
    decreases k,
{
    if k <= 0 {
        Seq::<char>::empty()
    } else {
        spec_file_items(paths, k - 1) + spec_file_item((k - 1) as nat, paths[k - 1])
    }
}

/// The complete download list markup.
pub open spec fn spec_file_list(paths: Seq<Seq<char>>) -> Seq<char> {
    "<ul class=\"file-list\">"@ + spec_file_items(paths, paths.len() as int) + "</ul>"@
}

/// The page a peer sees: the template with the offered note substituted
/// for `{download_text}` and the download list for `{download_files}`.
pub open spec fn spec_render(
    template: Seq<char>,
    offered: Seq<char>,
    paths: Seq<Seq<char>>,
) -> Seq<char> {
    spec_replace(
        spec_replace(template, "{download_text}"@, offered),
        "{download_files}"@,
        spec_file_list(paths),
    )
}

/// What of the session the served page depends on: only the offered note
/// and the download catalog.
pub open spec fn spec_render_session(template: Seq<char>, fs: FileSender) -> Seq<char> {
    spec_render(template, fs.download_text@, fs.download_files.deep_view())
}

/// Builds the download list markup for the offered files.
pub fn render_file_list(files: &Vec<String>) -> (r: String)
    ensures
        r@ == spec_file_list(files.deep_view()),
{
    let mut items = String::from_str("<ul class=\"file-list\">");
    let n = files.len();
    let mut i: usize = 0;
    proof {
        assert(items@ =~= "<ul class=\"file-list\">"@ + spec_file_items(files.deep_view(), 0));
    }
    while i < n
        invariant
            i <= n,
            n == files@.len(),
            items@ == "<ul class=\"file-list\">"@ + spec_file_items(files.deep_view(), i as int),
        decreases n - i,
    {
        items.append("<li><a href=\"data/download/");
        let num = usize_to_dec(i);
        items.append(num.as_str());
        items.append("\">");
        let name = get_filename(files[i].as_str());
        items.append(name.as_str());
        items.append("</a></li>");
        proof {
            assert(files.deep_view()[i as int] == files@[i as int]@);
            assert(items@ =~= "<ul class=\"file-list\">"@ + spec_file_items(
                files.deep_view(),
                i + 1,
            ));
        }
        i = i + 1;
    }
    items.append("</ul>");
    proof {
        assert(items@ =~= spec_file_list(files.deep_view()));
    }
    items
}

/// Renders the index page for the current session state. The output is a
/// pure function of the template, the offered note and the catalog, so
/// re-rendering unchanged state repeats the same page byte for byte.
pub fn render_index(template: &str, fs: &FileSender) -> (r: String)
    ensures
        r@ == spec_render_session(template@, *fs),
{
    let with_text = replace_all(template, "{download_text}", fs.download_text.as_str());
    let list = render_file_list(&fs.download_files);
    replace_all(with_text.as_str(), "{download_files}", list.as_str())
}

/// The whole index route's computation: fetches the page template from
/// the asset store and substitutes the session's state into it. `None`
/// exactly when the template asset is missing or not valid UTF-8, to
/// become a not-found response.
pub fn render_index_page(store: &AssetStore, fs: &FileSender) -> (r: Option<String>)
    ensures
        r is Some <==> (asset_lookup(store.entries@, "Web/index.html"@) matches Some(b)
            && valid_utf8(b)),
        r matches Some(page) ==> page@ == spec_render_session(
            decode_utf8(asset_lookup(store.entries@, "Web/index.html"@).unwrap()),
            *fs,
        ),
{
    proof {
        reveal_strlit("Web/");
        reveal_strlit("index.html");
        reveal_strlit("Web/index.html");
        assert("Web/"@ + "index.html"@ =~= "Web/index.html"@);
    }
    match get_web_string(store, "index.html") {
        Some(template) => Some(render_index(template.as_str(), fs)),
        None => None,
    }
}

/// Law (idempotent re-render, mailbox asymmetry): the served page is the
/// same for any two sessions that agree on the offered note and the
/// download catalog. Rendering twice with no intervening change repeats
/// the page exactly, and no change to the received note or the upload
/// outcome alone can ever alter it.
pub proof fn lemma_render_stable(template: Seq<char>, a: FileSender, b: FileSender)
    requires
        a.download_text == b.download_text,
        a.download_files == b.download_files,
    ensures
        spec_render_session(template, a) == spec_render_session(template, b),
{
}

} // verus!

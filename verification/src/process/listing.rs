//! The page that lists a directory: one entry per child, each a link back to
//! the server that wrote the page.

use vstd::prelude::*;
use vstd::utf8::encode_utf8;
use crate::process::brackets::is_well_bracketed;
use crate::process::brackets::lemma_listing_is_well_bracketed;
use crate::process::markup::lemma_link_is_valid;
use crate::process::markup::lemma_one_item_per_entry;
use crate::text::decimal::decimal;
use crate::text::decimal::push_decimal;
use crate::text::escape::encode_path;
use crate::text::escape::escape_html;
use crate::text::escape::escapes_are_complete;
use crate::text::escape::html_escape;
use crate::text::escape::is_path_char;
use crate::text::escape::percent_encode;
use crate::text::occurrences::occurrences;
use crate::text::paths::join;
use crate::text::paths::join_paths;

verus! {


/// The scheme that every link of a listing begins with.
pub const LINK_SCHEME: &'static str = "http://";

/// The host part of the address of a server that listens on all interfaces,
/// up to the port.
pub const ALL_INTERFACES: &'static str = "0.0.0.0:";

/// A character that a link is made of: a path character, or the `:` of the
/// scheme and the port.
pub open spec fn is_link_char(c: char) -> bool {
    is_path_char(c) || c == ':'
}

/// The text is a link that can stand in a quoted attribute as it is: it is
/// made of link characters, and every `%` in it begins a complete escape.
pub open spec fn is_valid_link(link: Seq<char>) -> bool {
    &&& forall|i: int| 0 <= i < link.len() ==> is_link_char(#[trigger] link[i])
    &&& escapes_are_complete(link)
}

/// The address of a server that listens on all interfaces at `port`: the
/// address to bind to, and the one that stands in the links of a listing.
pub open spec fn address_text(port: u16) -> Seq<char> {
    ALL_INTERFACES@ + decimal(port as nat)
}

/// The link to a child of a listed directory, on a server at `port`: behind
/// the server's address, the path that asks the server for the child. That
/// is the path of the request that the directory answers, which is relative
/// to the served directory, with the child's name adjoined, and encoded. The
/// served directory itself is no part of a link.
pub open spec fn link_to(port: u16, directory: Seq<char>, name: Seq<char>) -> Seq<char> {
    LINK_SCHEME@ + address_text(port) + seq!['/'] + percent_encode(
        encode_utf8(join(directory, name)),
    )
}

/// Writes the address of a server that listens on all interfaces at `port`.
pub fn address(port: u16) -> (text: String)
    ensures
        text@ == address_text(port),
{
    let mut text = String::from_str(ALL_INTERFACES);
    push_decimal(&mut text, port);
    text
}

/// One child of a listed directory, as a mathematical value.
pub struct FilePathView {
    /// The link that leads to the child.
    pub path: Seq<char>,
    /// The child's name, as the page shows it.
    pub name: Seq<char>,
}

impl FilePathView {
    /// The entry's link is valid.
    pub open spec fn is_well_formed(self) -> bool {
        is_valid_link(self.path)
    }
}

/// One child of a listed directory: the name to show and the link to follow.
/// The link is always valid, whatever the name holds.
#[derive(Debug)]
pub struct FilePath {
    path: String,
    name: String,
}

impl View for FilePath {
    type V = FilePathView;

    closed spec fn view(&self) -> FilePathView {
        FilePathView { path: self.path@, name: self.name@ }
    }
}

impl FilePath {
    #[verifier::type_invariant]
    spec fn link_is_valid(self) -> bool {
        is_valid_link(self.path@)
    }

    /// The entry for the child `name` of a listed directory, on a server at
    /// `port`. The directory is given by the path of the request that it
    /// answers.
    pub fn new(port: u16, directory: &str, name: &str) -> (entry: FilePath)
        ensures
            entry@.path == link_to(port, directory@, name@),
            entry@.name == name@,
            entry@.is_well_formed(),
    {
        let child = join_paths(directory, name);
        let encoded = encode_path(child.as_str());
        let host = address(port);
        let mut path = String::from_str(LINK_SCHEME);
        path.append(host.as_str());
        path.push('/');
        assert(path@ == LINK_SCHEME@ + address_text(port) + seq!['/']);
        path.append(encoded.as_str());
        proof {
            lemma_link_is_valid(port, directory@, name@);
        }
        FilePath { path, name: String::from_str(name) }
    }

    /// The link that leads to the child. It is valid for every entry.
    pub fn path(&self) -> (path: &str)
        ensures
            path@ == self@.path,
            self@.is_well_formed(),
    {
        proof {
            use_type_invariant(self);
        }
        self.path.as_str()
    }

    /// The child's name.
    pub fn name(&self) -> (name: &str)
        ensures
            name@ == self@.name,
    {
        self.name.as_str()
    }
}

/// The page up to the first entry.
pub const PAGE_HEAD: &'static str =
    "\n    <!DOCTYPE html>\n    <html lang=\"en\">\n    <head>\n        <meta charset=\"UTF-8\">\n        <meta name=\"viewport\" content=\"width=device-width, initial-scale=1.0\">\n        <title>File Server</title>\n    </head>\n    <body>\n        <ul>\n            ";

/// The page after the last entry.
pub const PAGE_TAIL: &'static str = "\n        </ul>\n    </body>\n    </html>\n    ";

/// An entry up to its link.
pub const ITEM_OPEN: &'static str = "<li><a href=\"";

/// An entry between its link and its name.
pub const ITEM_MIDDLE: &'static str = "\" target=\"_blank\">";

/// An entry after its name.
pub const ITEM_CLOSE: &'static str = "</a></li>";

/// One entry of the list: an anchor that opens the link in a new browsing
/// context and shows the escaped name.
pub open spec fn item_markup(entry: FilePathView) -> Seq<char> {
    ITEM_OPEN@ + entry.path + ITEM_MIDDLE@ + html_escape(entry.name) + ITEM_CLOSE@
}

/// The entries of the list in their order, one per line.
pub open spec fn items_markup(entries: Seq<FilePathView>) -> Seq<char>
    decreases entries.len(),
{
    if entries.len() == 0 {
        Seq::empty()
    } else if entries.len() == 1 {
        item_markup(entries[0])
    } else {
        items_markup(entries.drop_last()) + seq!['\n'] + item_markup(entries.last())
    }
}

/// The whole page for a sequence of entries.
pub open spec fn listing_markup(entries: Seq<FilePathView>) -> Seq<char> {
    PAGE_HEAD@ + items_markup(entries) + PAGE_TAIL@
}

/// The mathematical values of a sequence of entries.
pub open spec fn entry_views(entries: Seq<FilePath>) -> Seq<FilePathView> {
    entries.map_values(|entry: FilePath| entry@)
}

/// Every entry of the sequence is well formed.
pub open spec fn all_well_formed(entries: Seq<FilePathView>) -> bool {
    forall|i: int| 0 <= i < entries.len() ==> (#[trigger] entries[i]).is_well_formed()
}

impl FilePath {
    /// The entry as one item of the list.
    pub fn to_string(&self) -> (markup: String)
        ensures
            markup@ == item_markup(self@),
    {
        let mut markup = String::from_str(ITEM_OPEN);
        markup.append(self.path.as_str());
        markup.append(ITEM_MIDDLE);
        let shown = escape_html(self.name.as_str());
        markup.append(shown.as_str());
        markup.append(ITEM_CLOSE);
        markup
    }
}

/// Renders the page that lists the given entries, in their order. No entry
/// is dropped or merged with another: the page holds one list item for each.
/// Whatever the names hold, the page's tags and attribute values are all
/// closed.
pub fn render_html(paths: Vec<FilePath>) -> (page: String)
    ensures
        page@ == listing_markup(entry_views(paths@)),
        all_well_formed(entry_views(paths@)),
        occurrences(page@, "<li>"@) == paths.len(),
        occurrences(page@, "</li>"@) == paths.len(),
        is_well_bracketed(page@),
{
    let mut page = String::from_str(PAGE_HEAD);
    let mut i: usize = 0;
    assert(entry_views(paths@.take(0)) == Seq::<FilePathView>::empty());
    assert(page@ == PAGE_HEAD@ + items_markup(entry_views(paths@.take(0))));
    while i < paths.len()
        invariant
            i <= paths.len(),
            page@ == PAGE_HEAD@ + items_markup(entry_views(paths@.take(i as int))),
            all_well_formed(entry_views(paths@.take(i as int))),
        decreases paths.len() - i,
    {
        let ghost before = entry_views(paths@.take(i as int));
        let ghost after = entry_views(paths@.take(i + 1));
        if i > 0 {
            page.push('\n');
        }
        let entry = &paths[i];
        let item = entry.to_string();
        page.append(item.as_str());
        proof {
            use_type_invariant(entry);
            assert(after.drop_last() == before);
            assert(after.last() == paths@[i as int]@);
            assert forall|j: int| 0 <= j < after.len() implies (#[trigger] after[j])
                .is_well_formed() by {
                if j < i {
                    assert(after[j] == before[j]);
                }
            }
            if i == 0 {
                assert(items_markup(before) == Seq::<char>::empty());
                assert(items_markup(after) == item_markup(after[0]));
            } else {
                assert(items_markup(after) == items_markup(before) + seq!['\n'] + item_markup(
                    after.last(),
                ));
            }
        }
        i += 1;
    }
    page.append(PAGE_TAIL);
    proof {
        assert(paths@.take(paths@.len() as int) == paths@);
        lemma_one_item_per_entry(entry_views(paths@));
        lemma_listing_is_well_bracketed(entry_views(paths@));
    }
    page
}

} // verus!

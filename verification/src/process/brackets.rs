//! The brackets and quotes of a listing: every tag that is opened is closed,
//! and so is every attribute value, whatever the names of the entries hold.

use vstd::prelude::*;
use crate::process::listing::all_well_formed;
use crate::process::listing::is_link_char;
use crate::process::listing::item_markup;
use crate::process::listing::items_markup;
use crate::process::listing::listing_markup;
use crate::process::listing::FilePathView;
use crate::process::listing::ITEM_CLOSE;
use crate::process::listing::ITEM_MIDDLE;
use crate::process::listing::ITEM_OPEN;
use crate::process::listing::PAGE_HEAD;
use crate::process::listing::PAGE_TAIL;
use crate::text::escape::html_escape;
use crate::text::escape::is_markup_char;
use crate::text::escape::lemma_html_escape_has_no_markup;

verus! {

/// Where a reader of a document stands with respect to its tags.
pub enum Place {
    /// In text, outside any tag.
    Outside,
    /// Inside a tag, outside any attribute value.
    InTag,
    /// Inside a tag, inside an attribute value in double quotes.
    InValue,
    /// Behind a bracket that stands where none can: a `>` in text, a `<`
    /// inside a tag, or either inside an attribute value.
    Broken,
}

/// Where the reader stands after one more character.
pub open spec fn step(place: Place, c: char) -> Place {
    match place {
        Place::Outside => if c == '<' {
            Place::InTag
        } else if c == '>' {
            Place::Broken
        } else {
            Place::Outside
        },
        Place::InTag => if c == '>' {
            Place::Outside
        } else if c == '"' {
            Place::InValue
        } else if c == '<' {
            Place::Broken
        } else {
            Place::InTag
        },
        Place::InValue => if c == '"' {
            Place::InTag
        } else if c == '<' || c == '>' {
            Place::Broken
        } else {
            Place::InValue
        },
        Place::Broken => Place::Broken,
    }
}

/// Where the reader stands after the characters of `text` from `lo` up to
/// `hi`, having stood at `from` before them.
pub open spec fn scan_range(from: Place, text: Seq<char>, lo: int, hi: int) -> Place
    decreases hi - lo,
{
    if hi <= lo {
        from
    } else {
        step(scan_range(from, text, lo, hi - 1), text[hi - 1])
    }
}

/// Where the reader stands after `text`, having stood at `from` before it.
pub open spec fn scan(from: Place, text: Seq<char>) -> Place {
    scan_range(from, text, 0, text.len() as int)
}

/// Every tag that is opened in the text is closed, every attribute value
/// that is opened in a tag is closed, and no bracket stands where none can.
pub open spec fn is_well_bracketed(text: Seq<char>) -> bool {
    scan(Place::Outside, text) == Place::Outside
}

/// Reading a range is reading its first part and then the rest.
proof fn lemma_scan_split(from: Place, text: Seq<char>, lo: int, mid: int, hi: int)
    requires
        lo <= mid <= hi,
    ensures
        scan_range(from, text, lo, hi) == scan_range(
            scan_range(from, text, lo, mid),
            text,
            mid,
            hi,
        ),
    decreases hi - mid,
{
    if mid < hi {
        lemma_scan_split(from, text, lo, mid, hi - 1);
    }
}

/// Reading the beginning of a concatenation is reading its left part.
proof fn lemma_scan_left(from: Place, left: Seq<char>, right: Seq<char>, hi: int)
    requires
        0 <= hi <= left.len(),
    ensures
        scan_range(from, left + right, 0, hi) == scan_range(from, left, 0, hi),
    decreases hi,
{
    if hi > 0 {
        lemma_scan_left(from, left, right, hi - 1);
        assert((left + right)[hi - 1] == left[hi - 1]);
    }
}

/// Reading the end of a concatenation is reading its right part.
proof fn lemma_scan_right(from: Place, left: Seq<char>, right: Seq<char>, hi: int)
    requires
        0 <= hi <= right.len(),
    ensures
        scan_range(from, left + right, left.len() as int, left.len() + hi) == scan_range(
            from,
            right,
            0,
            hi,
        ),
    decreases hi,
{
    if hi > 0 {
        lemma_scan_right(from, left, right, hi - 1);
        assert((left + right)[left.len() + hi - 1] == right[hi - 1]);
    }
}

/// Reading a concatenation is reading its left part and then its right part.
pub proof fn lemma_scan_concat(from: Place, left: Seq<char>, right: Seq<char>)
    ensures
        scan(from, left + right) == scan(scan(from, left), right),
{
    let whole = left + right;
    lemma_scan_split(from, whole, 0, left.len() as int, whole.len() as int);
    lemma_scan_left(from, left, right, left.len() as int);
    lemma_scan_right(scan(from, left), left, right, right.len() as int);
}

/// A text without brackets and quotes leaves the reader where it stood.
pub proof fn lemma_scan_inert(from: Place, text: Seq<char>, hi: int)
    requires
        0 <= hi <= text.len(),
        forall|i: int| 0 <= i < text.len() ==> !is_markup_char(#[trigger] text[i]),
    ensures
        scan_range(from, text, 0, hi) == from,
    decreases hi,
{
    if hi > 0 {
        lemma_scan_inert(from, text, hi - 1);
        assert(!is_markup_char(text[hi - 1]));
    }
}

/// How the template's fixed texts read: the page's head and tail and the
/// end of an item from text to text, the beginning of an item from text into
/// the value of the link, and its middle from there back to text.
proof fn lemma_template_reads()
    ensures
        scan(Place::Outside, PAGE_HEAD@) == Place::Outside,
        scan(Place::Outside, ITEM_OPEN@) == Place::InValue,
        scan(Place::InValue, ITEM_MIDDLE@) == Place::Outside,
        scan(Place::Outside, ITEM_CLOSE@) == Place::Outside,
        scan(Place::Outside, PAGE_TAIL@) == Place::Outside,
{
    reveal_strlit(
        "\n    <!DOCTYPE html>\n    <html lang=\"en\">\n    <head>\n        <meta charset=\"UTF-8\">\n        <meta name=\"viewport\" content=\"width=device-width, initial-scale=1.0\">\n        <title>File Server</title>\n    </head>\n    <body>\n        <ul>\n            ",
    );
    reveal_strlit("\n        </ul>\n    </body>\n    </html>\n    ");
    reveal_strlit("<li><a href=\"");
    reveal_strlit("\" target=\"_blank\">");
    reveal_strlit("</a></li>");
    let head = PAGE_HEAD@;
    assert(head.len() == 246);
    assert(scan_range(Place::Outside, head, 0, 60) == Place::Outside) by {
        reveal_with_fuel(scan_range, 61);
    }
    assert(scan_range(Place::Outside, head, 60, 120) == Place::InTag) by {
        reveal_with_fuel(scan_range, 61);
    }
    assert(scan_range(Place::InTag, head, 120, 180) == Place::Outside) by {
        reveal_with_fuel(scan_range, 61);
    }
    assert(scan_range(Place::Outside, head, 180, 246) == Place::Outside) by {
        reveal_with_fuel(scan_range, 67);
    }
    lemma_scan_split(Place::Outside, head, 0, 60, 246);
    lemma_scan_split(Place::Outside, head, 60, 120, 246);
    lemma_scan_split(Place::InTag, head, 120, 180, 246);
    assert(scan(Place::Outside, ITEM_OPEN@) == Place::InValue) by {
        reveal_with_fuel(scan_range, 14);
    }
    assert(scan(Place::InValue, ITEM_MIDDLE@) == Place::Outside) by {
        reveal_with_fuel(scan_range, 19);
    }
    assert(scan(Place::Outside, ITEM_CLOSE@) == Place::Outside) by {
        reveal_with_fuel(scan_range, 10);
    }
    assert(scan(Place::Outside, PAGE_TAIL@) == Place::Outside) by {
        reveal_with_fuel(scan_range, 44);
    }
}

/// An item reads from text to text: its link cannot close the value it
/// stands in, and its name cannot open a tag.
proof fn lemma_item_is_well_bracketed(entry: FilePathView)
    requires
        entry.is_well_formed(),
    ensures
        is_well_bracketed(item_markup(entry)),
{
    lemma_template_reads();
    let shown = html_escape(entry.name);
    lemma_html_escape_has_no_markup(entry.name);
    assert forall|i: int| 0 <= i < entry.path.len() implies !is_markup_char(
        #[trigger] entry.path[i],
    ) by {
        assert(is_link_char(entry.path[i]));
    }
    let a2 = ITEM_OPEN@ + entry.path;
    let a3 = a2 + ITEM_MIDDLE@;
    let a4 = a3 + shown;
    lemma_scan_concat(Place::Outside, ITEM_OPEN@, entry.path);
    lemma_scan_inert(Place::InValue, entry.path, entry.path.len() as int);
    lemma_scan_concat(Place::Outside, a2, ITEM_MIDDLE@);
    lemma_scan_concat(Place::Outside, a3, shown);
    lemma_scan_inert(Place::Outside, shown, shown.len() as int);
    lemma_scan_concat(Place::Outside, a4, ITEM_CLOSE@);
}

/// The entries of a list read from text to text.
proof fn lemma_items_are_well_bracketed(entries: Seq<FilePathView>)
    requires
        all_well_formed(entries),
    ensures
        is_well_bracketed(items_markup(entries)),
    decreases entries.len(),
{
    if entries.len() == 0 {
    } else if entries.len() == 1 {
        lemma_item_is_well_bracketed(entries[0]);
    } else {
        let before = entries.drop_last();
        assert(all_well_formed(before)) by {
            assert forall|i: int| 0 <= i < before.len() implies (#[trigger] before[i])
                .is_well_formed() by {
                assert(before[i] == entries[i]);
            }
        }
        lemma_items_are_well_bracketed(before);
        lemma_item_is_well_bracketed(entries.last());
        let newline = seq!['\n'];
        lemma_scan_concat(Place::Outside, items_markup(before), newline);
        lemma_scan_inert(Place::Outside, newline, 1);
        lemma_scan_concat(
            Place::Outside,
            items_markup(before) + newline,
            item_markup(entries.last()),
        );
    }
}

/// A page is well bracketed, whatever the names of its entries hold: every
/// tag that is opened is closed, every attribute value that is opened is
/// closed, and no `<` or `>` stands inside a tag or a value or closes what
/// was not opened.
pub proof fn lemma_listing_is_well_bracketed(entries: Seq<FilePathView>)
    requires
        all_well_formed(entries),
    ensures
        is_well_bracketed(listing_markup(entries)),
{
    lemma_template_reads();
    lemma_items_are_well_bracketed(entries);
    lemma_scan_concat(Place::Outside, PAGE_HEAD@, items_markup(entries));
    lemma_scan_concat(Place::Outside, PAGE_HEAD@ + items_markup(entries), PAGE_TAIL@);
}

} // verus!

//! What holds of every listing: its links are valid, and its structure is
//! that of the template, whatever the names of the entries hold.

use vstd::prelude::*;
use vstd::utf8::encode_utf8;
use crate::process::listing::address_text;
use crate::process::listing::all_well_formed;
use crate::process::listing::is_link_char;
use crate::process::listing::is_valid_link;
use crate::process::listing::item_markup;
use crate::process::listing::items_markup;
use crate::process::listing::link_to;
use crate::process::listing::listing_markup;
use crate::process::listing::FilePathView;
use crate::process::listing::ALL_INTERFACES;
use crate::process::listing::ITEM_CLOSE;
use crate::process::listing::ITEM_MIDDLE;
use crate::process::listing::ITEM_OPEN;
use crate::process::listing::LINK_SCHEME;
use crate::process::listing::PAGE_HEAD;
use crate::process::listing::PAGE_TAIL;
use crate::text::decimal::all_digits;
use crate::text::decimal::decimal;
use crate::text::decimal::lemma_decimal_round_trip;
use crate::text::escape::html_escape;
use crate::text::escape::is_hex_digit;
use crate::text::escape::is_markup_char;
use crate::text::escape::is_path_char;
use crate::text::escape::is_unreserved_char;
use crate::text::escape::lemma_html_escape_has_no_markup;
use crate::text::escape::lemma_html_escape_of_plain;
use crate::text::escape::lemma_percent_encode_is_url_safe;
use crate::text::escape::lemma_percent_encode_of_plain;
use crate::text::escape::percent_encode;
use crate::text::occurrences::avoids_head;
use crate::text::occurrences::lemma_no_beginning_no_occurrence;
use crate::text::occurrences::lemma_no_head_no_occurrence;
use crate::text::occurrences::lemma_none_below;
use crate::text::occurrences::lemma_occurrences_concat;
use crate::text::occurrences::lemma_single_occurrence;
use crate::text::occurrences::lemma_tail_kept_by_headless;
use crate::text::occurrences::lemma_tail_set_by_right;
use crate::text::occurrences::occurrences;
use crate::text::occurrences::tail_avoids_head;
use crate::text::paths::is_absolute;
use crate::text::paths::join;

verus! {

/// A link built by `link_to` is valid.
pub proof fn lemma_link_is_valid(port: u16, directory: Seq<char>, name: Seq<char>)
    ensures
        is_valid_link(link_to(port, directory, name)),
{
    reveal_strlit("http://");
    reveal_strlit("0.0.0.0:");
    let digits = decimal(port as nat);
    let origin = LINK_SCHEME@ + ALL_INTERFACES@;
    let encoded = percent_encode(encode_utf8(join(directory, name)));
    let front = origin + digits + seq!['/'];
    let link = link_to(port, directory, name);
    lemma_decimal_round_trip(port as nat);
    lemma_percent_encode_is_url_safe(encode_utf8(join(directory, name)));
    assert(all_digits(digits));
    assert forall|i: int| 0 <= i < front.len() implies is_link_char(#[trigger] front[i])
        && front[i] != '%' by {
        if i < origin.len() {
            assert(front[i] == origin[i]);
        } else if i < origin.len() + digits.len() {
            assert(front[i] == digits[i - origin.len()]);
        }
    }
    assert(link == front + encoded);
    assert forall|i: int| 0 <= i < link.len() implies is_link_char(#[trigger] link[i]) by {
        if i < front.len() {
            assert(link[i] == front[i]);
        } else {
            assert(link[i] == encoded[i - front.len()]);
        }
    }
    assert forall|i: int| 0 <= i < link.len() && #[trigger] link[i] == '%' implies {
        &&& i + 2 < link.len()
        &&& is_hex_digit(link[i + 1])
        &&& is_hex_digit(link[i + 2])
    } by {
        if i < front.len() {
            assert(link[i] == front[i]);
        } else {
            let j = i - front.len();
            assert(link[i] == encoded[j]);
            assert(link[i + 1] == encoded[j + 1]);
            assert(link[i + 2] == encoded[j + 2]);
        }
    }
}

/// A text that can begin a tag and is short enough that no name and no link
/// can complete it: `<` and one to four characters more.
pub open spec fn is_tag_start(tag: Seq<char>) -> bool {
    2 <= tag.len() <= 5 && tag[0] == '<'
}

/// The template's fixed texts leave room at their ends: none ends so close
/// behind a `<` that a tag start could run over into what follows.
proof fn lemma_template_seams(tag: Seq<char>)
    requires
        is_tag_start(tag),
    ensures
        tail_avoids_head(PAGE_HEAD@, tag),
        tail_avoids_head(ITEM_OPEN@, tag),
        avoids_head(ITEM_MIDDLE@, tag),
        tail_avoids_head(ITEM_CLOSE@, tag),
        avoids_head(seq!['\n'], tag),
        ITEM_CLOSE@.len() == 9,
{
    reveal_strlit(
        "\n    <!DOCTYPE html>\n    <html lang=\"en\">\n    <head>\n        <meta charset=\"UTF-8\">\n        <meta name=\"viewport\" content=\"width=device-width, initial-scale=1.0\">\n        <title>File Server</title>\n    </head>\n    <body>\n        <ul>\n            ",
    );
    reveal_strlit("<li><a href=\"");
    reveal_strlit("\" target=\"_blank\">");
    reveal_strlit("</a></li>");
}

/// A well-formed entry's link and its escaped name hold no `<`.
proof fn lemma_entry_texts_are_inert(entry: FilePathView, tag: Seq<char>)
    requires
        entry.is_well_formed(),
        is_tag_start(tag),
    ensures
        avoids_head(entry.path, tag),
        avoids_head(html_escape(entry.name), tag),
{
    lemma_html_escape_has_no_markup(entry.name);
    let shown = html_escape(entry.name);
    assert forall|i: int| 0 <= i < shown.len() implies #[trigger] shown[i] != tag[0] by {
        assert(!is_markup_char(shown[i]));
    }
    assert forall|i: int| 0 <= i < entry.path.len() implies #[trigger] entry.path[i] != tag[0] by {
        assert(is_link_char(entry.path[i]));
    }
}

/// The tag starts in one item are those of the item's fixed texts.
proof fn lemma_tags_in_item(entry: FilePathView, tag: Seq<char>)
    requires
        entry.is_well_formed(),
        is_tag_start(tag),
    ensures
        occurrences(item_markup(entry), tag) == occurrences(ITEM_OPEN@, tag) + occurrences(
            ITEM_CLOSE@,
            tag,
        ),
        tail_avoids_head(item_markup(entry), tag),
        item_markup(entry).len() >= 9,
{
    lemma_template_seams(tag);
    lemma_entry_texts_are_inert(entry, tag);
    let shown = html_escape(entry.name);
    let a1 = ITEM_OPEN@;
    let a2 = a1 + entry.path;
    let a3 = a2 + ITEM_MIDDLE@;
    let a4 = a3 + shown;
    lemma_occurrences_concat(a1, entry.path, tag);
    lemma_no_head_no_occurrence(entry.path, tag);
    lemma_tail_kept_by_headless(a1, entry.path, tag);
    lemma_occurrences_concat(a2, ITEM_MIDDLE@, tag);
    lemma_no_head_no_occurrence(ITEM_MIDDLE@, tag);
    lemma_tail_kept_by_headless(a2, ITEM_MIDDLE@, tag);
    lemma_occurrences_concat(a3, shown, tag);
    lemma_no_head_no_occurrence(shown, tag);
    lemma_tail_kept_by_headless(a3, shown, tag);
    lemma_occurrences_concat(a4, ITEM_CLOSE@, tag);
    lemma_tail_set_by_right(a4, ITEM_CLOSE@, tag);
}

/// The tag starts in the entries of a list are those of the items' fixed
/// texts, once for each entry.
proof fn lemma_tags_in_items(entries: Seq<FilePathView>, tag: Seq<char>)
    requires
        all_well_formed(entries),
        is_tag_start(tag),
    ensures
        occurrences(items_markup(entries), tag) == entries.len() * (occurrences(ITEM_OPEN@, tag)
            + occurrences(ITEM_CLOSE@, tag)),
        entries.len() > 0 ==> tail_avoids_head(items_markup(entries), tag) && items_markup(
            entries,
        ).len() >= 9,
    decreases entries.len(),
{
    let each = occurrences(ITEM_OPEN@, tag) + occurrences(ITEM_CLOSE@, tag);
    if entries.len() == 0 {
        lemma_none_below(Seq::<char>::empty(), tag, 0);
    } else if entries.len() == 1 {
        lemma_tags_in_item(entries[0], tag);
        assert(1 * each == each) by (nonlinear_arith);
    } else {
        let before = entries.drop_last();
        let last = entries.last();
        assert(all_well_formed(before)) by {
            assert forall|i: int| 0 <= i < before.len() implies (#[trigger] before[i])
                .is_well_formed() by {
                assert(before[i] == entries[i]);
            }
        }
        lemma_tags_in_items(before, tag);
        lemma_tags_in_item(last, tag);
        lemma_template_seams(tag);
        let newline = seq!['\n'];
        let left = items_markup(before) + newline;
        lemma_occurrences_concat(items_markup(before), newline, tag);
        lemma_no_head_no_occurrence(newline, tag);
        lemma_tail_kept_by_headless(items_markup(before), newline, tag);
        lemma_occurrences_concat(left, item_markup(last), tag);
        lemma_tail_set_by_right(left, item_markup(last), tag);
        assert(entries.len() * each == before.len() * each + each) by (nonlinear_arith)
            requires
                entries.len() == before.len() + 1,
        ;
    }
}

/// Names and links add no tags. The tag starts in a page are those of the
/// page's fixed texts, the items' once for each entry, whatever the entries'
/// names hold.
pub proof fn lemma_tags_come_from_template(entries: Seq<FilePathView>, tag: Seq<char>)
    requires
        all_well_formed(entries),
        is_tag_start(tag),
    ensures
        occurrences(listing_markup(entries), tag) == occurrences(PAGE_HEAD@, tag) + entries.len()
            * (occurrences(ITEM_OPEN@, tag) + occurrences(ITEM_CLOSE@, tag)) + occurrences(
            PAGE_TAIL@,
            tag,
        ),
{
    lemma_template_seams(tag);
    lemma_tags_in_items(entries, tag);
    let items = items_markup(entries);
    let left = PAGE_HEAD@ + items;
    lemma_occurrences_concat(PAGE_HEAD@, items, tag);
    if entries.len() == 0 {
        assert(left == PAGE_HEAD@);
    } else {
        lemma_tail_set_by_right(PAGE_HEAD@, items, tag);
    }
    lemma_occurrences_concat(left, PAGE_TAIL@, tag);
}

/// How often the opening and the closing tag of a list item stand in each of
/// the template's fixed texts.
proof fn lemma_item_tags_in_template()
    ensures
        occurrences(PAGE_HEAD@, "<li>"@) == 0,
        occurrences(ITEM_OPEN@, "<li>"@) == 1,
        occurrences(ITEM_CLOSE@, "<li>"@) == 0,
        occurrences(PAGE_TAIL@, "<li>"@) == 0,
        occurrences(PAGE_HEAD@, "</li>"@) == 0,
        occurrences(ITEM_OPEN@, "</li>"@) == 0,
        occurrences(ITEM_CLOSE@, "</li>"@) == 1,
        occurrences(PAGE_TAIL@, "</li>"@) == 0,
        is_tag_start("<li>"@),
        is_tag_start("</li>"@),
{
    reveal_strlit(
        "\n    <!DOCTYPE html>\n    <html lang=\"en\">\n    <head>\n        <meta charset=\"UTF-8\">\n        <meta name=\"viewport\" content=\"width=device-width, initial-scale=1.0\">\n        <title>File Server</title>\n    </head>\n    <body>\n        <ul>\n            ",
    );
    reveal_strlit("\n        </ul>\n    </body>\n    </html>\n    ");
    reveal_strlit("<li><a href=\"");
    reveal_strlit("</a></li>");
    reveal_strlit("<li>");
    reveal_strlit("</li>");
    let open = "<li>"@;
    let close = "</li>"@;
    lemma_no_beginning_no_occurrence(PAGE_HEAD@, open);
    lemma_no_beginning_no_occurrence(ITEM_CLOSE@, open);
    lemma_no_beginning_no_occurrence(PAGE_TAIL@, open);
    lemma_no_beginning_no_occurrence(PAGE_HEAD@, close);
    lemma_no_beginning_no_occurrence(ITEM_OPEN@, close);
    lemma_no_beginning_no_occurrence(PAGE_TAIL@, close);
    assert(ITEM_OPEN@.subrange(0, 4) == open);
    lemma_single_occurrence(ITEM_OPEN@, open, 0);
    assert(ITEM_CLOSE@.subrange(4, 9) == close);
    lemma_single_occurrence(ITEM_CLOSE@, close, 4);
}

/// A page holds one list item for each entry: the opening tag and the
/// closing tag of a list item each stand in it as often as there are entries.
pub proof fn lemma_one_item_per_entry(entries: Seq<FilePathView>)
    requires
        all_well_formed(entries),
    ensures
        occurrences(listing_markup(entries), "<li>"@) == entries.len(),
        occurrences(listing_markup(entries), "</li>"@) == entries.len(),
{
    lemma_item_tags_in_template();
    lemma_tags_come_from_template(entries, "<li>"@);
    lemma_tags_come_from_template(entries, "</li>"@);
    assert(entries.len() * (1 + 0) == entries.len()) by (nonlinear_arith);
    assert(entries.len() * (0 + 1) == entries.len()) by (nonlinear_arith);
}

/// The markup characters of a text, in their order.
pub open spec fn markup_of(text: Seq<char>) -> Seq<char> {
    text.filter(|c: char| is_markup_char(c))
}

/// As many entries as asked for, each with an empty link and an empty name.
/// The page for them is the bare template.
pub open spec fn blank_entries(count: nat) -> Seq<FilePathView> {
    Seq::new(count, |i: int| FilePathView { path: Seq::empty(), name: Seq::empty() })
}

/// A text without markup characters has no markup.
proof fn lemma_inert_text_has_no_markup(text: Seq<char>)
    requires
        forall|i: int| 0 <= i < text.len() ==> !is_markup_char(#[trigger] text[i]),
    ensures
        markup_of(text) == Seq::<char>::empty(),
    decreases text.len(),
{
    reveal(Seq::filter);
    if text.len() > 0 {
        lemma_inert_text_has_no_markup(text.drop_last());
        assert(!is_markup_char(text[text.len() - 1]));
    }
}

/// The markup of one item is that of the item's fixed texts.
proof fn lemma_markup_of_item(entry: FilePathView)
    requires
        entry.is_well_formed(),
    ensures
        markup_of(item_markup(entry)) == markup_of(ITEM_OPEN@) + markup_of(ITEM_MIDDLE@)
            + markup_of(ITEM_CLOSE@),
{
    let keep = |c: char| is_markup_char(c);
    let shown = html_escape(entry.name);
    lemma_html_escape_has_no_markup(entry.name);
    lemma_inert_text_has_no_markup(shown);
    assert forall|i: int| 0 <= i < entry.path.len() implies !is_markup_char(
        #[trigger] entry.path[i],
    ) by {
        assert(is_link_char(entry.path[i]));
    }
    lemma_inert_text_has_no_markup(entry.path);
    let a2 = ITEM_OPEN@ + entry.path;
    let a3 = a2 + ITEM_MIDDLE@;
    let a4 = a3 + shown;
    Seq::filter_distributes_over_add(ITEM_OPEN@, entry.path, keep);
    Seq::filter_distributes_over_add(a2, ITEM_MIDDLE@, keep);
    Seq::filter_distributes_over_add(a3, shown, keep);
    Seq::filter_distributes_over_add(a4, ITEM_CLOSE@, keep);
    assert(markup_of(a2) == markup_of(ITEM_OPEN@));
    assert(markup_of(a4) == markup_of(a3));
}

/// The markup of a list's entries depends on how many they are, and on
/// nothing else.
proof fn lemma_markup_of_items(first: Seq<FilePathView>, second: Seq<FilePathView>)
    requires
        all_well_formed(first),
        all_well_formed(second),
        first.len() == second.len(),
    ensures
        markup_of(items_markup(first)) == markup_of(items_markup(second)),
    decreases first.len(),
{
    let keep = |c: char| is_markup_char(c);
    if first.len() == 0 {
    } else if first.len() == 1 {
        lemma_markup_of_item(first[0]);
        lemma_markup_of_item(second[0]);
    } else {
        assert(all_well_formed(first.drop_last())) by {
            assert forall|i: int| 0 <= i < first.len() - 1 implies (#[trigger] first.drop_last()[i])
                .is_well_formed() by {
                assert(first.drop_last()[i] == first[i]);
            }
        }
        assert(all_well_formed(second.drop_last())) by {
            assert forall|i: int| 0 <= i < second.len() - 1 implies (#[trigger] second.drop_last()[
                i
            ]).is_well_formed() by {
                assert(second.drop_last()[i] == second[i]);
            }
        }
        lemma_markup_of_items(first.drop_last(), second.drop_last());
        lemma_markup_of_item(first.last());
        lemma_markup_of_item(second.last());
        let newline = seq!['\n'];
        Seq::filter_distributes_over_add(items_markup(first.drop_last()), newline, keep);
        Seq::filter_distributes_over_add(
            items_markup(first.drop_last()) + newline,
            item_markup(first.last()),
            keep,
        );
        Seq::filter_distributes_over_add(items_markup(second.drop_last()), newline, keep);
        Seq::filter_distributes_over_add(
            items_markup(second.drop_last()) + newline,
            item_markup(second.last()),
            keep,
        );
    }
}

/// Names and links bring no markup. The characters that open and close tags
/// and attribute values are, in a page for well-formed entries, those of the
/// bare template for as many entries, in the same order: no name and no link
/// can open, close or break a tag or an attribute.
pub proof fn lemma_markup_comes_from_template(entries: Seq<FilePathView>)
    requires
        all_well_formed(entries),
    ensures
        markup_of(listing_markup(entries)) == markup_of(
            listing_markup(blank_entries(entries.len())),
        ),
{
    let keep = |c: char| is_markup_char(c);
    let blank = blank_entries(entries.len());
    assert(all_well_formed(blank)) by {
        assert forall|i: int| 0 <= i < blank.len() implies (#[trigger] blank[i])
            .is_well_formed() by {
            assert(blank[i].path.len() == 0);
        }
    }
    lemma_markup_of_items(entries, blank);
    Seq::filter_distributes_over_add(PAGE_HEAD@, items_markup(entries), keep);
    Seq::filter_distributes_over_add(PAGE_HEAD@ + items_markup(entries), PAGE_TAIL@, keep);
    Seq::filter_distributes_over_add(PAGE_HEAD@, items_markup(blank), keep);
    Seq::filter_distributes_over_add(PAGE_HEAD@ + items_markup(blank), PAGE_TAIL@, keep);
}

/// Every character of the text is unreserved: such a text is the same in a
/// link and in a page as in the name it comes from.
pub open spec fn is_plain_text(text: Seq<char>) -> bool {
    forall|i: int| 0 <= i < text.len() ==> is_unreserved_char(#[trigger] text[i])
}

/// An ordinary name is written as it is. For a child with a name of
/// unreserved characters, in a directory whose path is made of such
/// characters and separators, the link is the child's path behind the
/// server's address, and the item shows the name unchanged.
pub proof fn lemma_plain_entry_is_written_as_it_is(
    port: u16,
    directory: Seq<char>,
    name: Seq<char>,
)
    requires
        is_plain_text(name),
        forall|i: int|
            0 <= i < directory.len() ==> is_unreserved_char(#[trigger] directory[i])
                || directory[i] == '/',
    ensures
        link_to(port, directory, name) == LINK_SCHEME@ + address_text(port) + seq!['/'] + join(
            directory,
            name,
        ),
        html_escape(name) == name,
{
    let child = join(directory, name);
    assert forall|i: int| 0 <= i < child.len() implies is_path_char(#[trigger] child[i])
        && child[i] != '%' by {
        if is_absolute(name) {
            assert(is_unreserved_char(name[0]));
        } else if directory.len() == 0 || directory.last() == '/' {
            if i < directory.len() {
                assert(child[i] == directory[i]);
            } else {
                assert(child[i] == name[i - directory.len()]);
            }
        } else {
            if i < directory.len() {
                assert(child[i] == directory[i]);
            } else if i > directory.len() {
                assert(child[i] == name[i - directory.len() - 1]);
            }
        }
    }
    lemma_percent_encode_of_plain(child);
    assert forall|i: int| 0 <= i < name.len() implies !is_markup_char(#[trigger] name[i])
        && name[i] != '&' by {
        assert(is_unreserved_char(name[i]));
    }
    lemma_html_escape_of_plain(name);
}

/// Rendering is a function of the sequence of entries: the same entries in
/// the same order give the same page.
pub proof fn lemma_rendering_is_pure(first: Seq<FilePathView>, second: Seq<FilePathView>)
    requires
        first == second,
    ensures
        listing_markup(first) == listing_markup(second),
{
}

/// The page for no entries is the template around an empty list.
pub proof fn lemma_empty_listing()
    ensures
        listing_markup(Seq::empty()) == PAGE_HEAD@ + PAGE_TAIL@,
{
    assert(items_markup(Seq::empty()) == Seq::<char>::empty());
}

} // verus!

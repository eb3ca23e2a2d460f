//! The HTML pages: the album index and the reader page of one album.

use vstd::prelude::*;
use vstd::utf8::encode_utf8;
use crate::pages::{
    CARD_0, CARD_1, CARD_2, CARD_3, CARD_4, CARD_5, CARD_6, CARD_7, DEFAULT_COVER, EMPTY_HINT, INDEX_0, INDEX_1, INDEX_2, INDEX_3, INDEX_4, INDEX_5, INDEX_6, INDEX_7, INDEX_8, INDEX_9, RAW_URL_PREFIX, VIEWER_0, VIEWER_1, VIEWER_2, VIEWER_3, VIEWER_4, VIEWER_URL_PREFIX,
};
use crate::scanner::{Album, AlbumImages, AlbumView, Config, album_views, string_views};
use crate::text::{decimal, html_escaped, lowercase_of, push_decimal, push_html_escaped, to_lowercase};

verus! {

// ---------------------------------------------------------------------------
// Percent-encoding
// ---------------------------------------------------------------------------

pub open spec fn is_ascii_alphanumeric_byte(b: u8) -> bool {
    (0x30 <= b && b <= 0x39) || (0x41 <= b && b <= 0x5A) || (0x61 <= b && b <= 0x7A)
}

/// Upper-case hexadecimal digit.
pub open spec fn hex_upper(d: nat) -> char {
    if d < 10 {
        crate::text::digit_char(d)
    } else if d == 10 {
        'A'
    } else if d == 11 {
        'B'
    } else if d == 12 {
        'C'
    } else if d == 13 {
        'D'
    } else if d == 14 {
        'E'
    } else {
        'F'
    }
}

/// One byte, percent-encoded unless it is an ASCII letter or digit.
pub open spec fn percent_byte(b: u8) -> Seq<char> {
    if is_ascii_alphanumeric_byte(b) {
        seq![b as char]
    } else {
        seq!['%', hex_upper((b / 16) as nat), hex_upper((b % 16) as nat)]
    }
}

pub open spec fn percent_encoded_bytes(b: Seq<u8>) -> Seq<char>
    decreases b.len(),
{
    if b.len() == 0 {
        Seq::empty()
    } else {
        percent_byte(b[0]) + percent_encoded_bytes(b.skip(1))
    }
}

/// The UTF-8 bytes of `s`, each percent-encoded unless it is an ASCII
/// letter or digit.
pub open spec fn url_encoded(s: Seq<char>) -> Seq<char> {
    percent_encoded_bytes(encode_utf8(s))
}

/// Percent-encodes `s` for use in a URL query.
///
/// Trusted: `percent_encoding::utf8_percent_encode(s, NON_ALPHANUMERIC)`
/// written out with `to_string`. Its source encodes every UTF-8 byte of
/// `s` that is not an ASCII letter or digit as `%` and two upper-case hex
/// digits, and keeps the others; that is what the contract states.
#[verifier::external_body]
pub fn url_encode(s: &str) -> (r: String)
    ensures
        r@ == url_encoded(s@),
{
    percent_encoding::utf8_percent_encode(s, percent_encoding::NON_ALPHANUMERIC).to_string()
}

// ---------------------------------------------------------------------------
// JSON
// ---------------------------------------------------------------------------

/// Lower-case hexadecimal digit of `d` (`0 <= d < 16`).
pub open spec fn hex_digit_lower(d: int) -> char {
    seq!['0', '1', '2', '3', '4', '5', '6', '7', '8', '9', 'a', 'b', 'c', 'd', 'e', 'f'][d]
}

/// How one character is written inside a JSON string: `"` and `\` behind a
/// backslash, the control characters with a short escape as such, the
/// other control characters below U+0020 as `\u00` and two lower-case hex
/// digits, and every other character as itself.
pub open spec fn json_escaped_char(c: char) -> Seq<char> {
    if c == '"' {
        seq!['\\', '"']
    } else if c == '\\' {
        seq!['\\', '\\']
    } else if c == '\x08' {
        seq!['\\', 'b']
    } else if c == '\t' {
        seq!['\\', 't']
    } else if c == '\n' {
        seq!['\\', 'n']
    } else if c == '\x0C' {
        seq!['\\', 'f']
    } else if c == '\r' {
        seq!['\\', 'r']
    } else if (c as int) < 0x20 {
        seq!['\\', 'u', '0', '0', hex_digit_lower((c as int) / 16), hex_digit_lower((c as int) % 16)]
    } else {
        seq![c]
    }
}

/// The characters of `s` escaped for a JSON string.
pub open spec fn json_escaped(s: Seq<char>) -> Seq<char>
    decreases s.len(),
{
    if s.len() == 0 {
        Seq::empty()
    } else {
        json_escaped(s.drop_last()) + json_escaped_char(s.last())
    }
}

/// `s` as a JSON string: escaped, between double quotes.
pub open spec fn json_string(s: Seq<char>) -> Seq<char> {
    seq!['"'] + json_escaped(s) + seq!['"']
}

/// The JSON strings of `items`, separated by commas.
pub open spec fn json_elements(items: Seq<Seq<char>>) -> Seq<char>
    decreases items.len(),
{
    if items.len() == 0 {
        Seq::empty()
    } else if items.len() == 1 {
        json_string(items[0])
    } else {
        json_elements(items.drop_last()) + seq![','] + json_string(items.last())
    }
}

/// The compact JSON array of the strings `items`, as `serde_json::to_string`
/// writes it: `[`, the JSON strings separated by commas, `]`.
pub open spec fn json_string_array(items: Seq<Seq<char>>) -> Seq<char> {
    seq!['['] + json_elements(items) + seq![']']
}

/// Trusted: `serde_json::to_string` on a list of strings. Its source (the
/// compact formatter and its escape table) writes the array that
/// `json_string_array` spells out. It cannot fail on a `Vec<String>`
/// (strings always serialise and writing into a `Vec<u8>` cannot fail), so
/// the fallback to an empty string never applies.
#[verifier::external_body]
pub fn json_encode_strings(items: &Vec<String>) -> (r: String)
    ensures
        r@ == json_string_array(string_views(items@)),
{
    serde_json::to_string(items).unwrap_or_default()
}

// ---------------------------------------------------------------------------
// HTML escaping
// ---------------------------------------------------------------------------

/// Escapes `&`, `<`, `>`, `"` and `'` for HTML.
pub fn html_escape(s: &str) -> (r: String)
    ensures
        r@ == html_escaped(s@),
{
    let mut out = String::new();
    push_html_escaped(&mut out, s);
    out
}

// ---------------------------------------------------------------------------
// The index page
// ---------------------------------------------------------------------------

/// The cover image link of an album card.
pub open spec fn cover_url(a: AlbumView, show_cover: bool) -> Seq<char> {
    if show_cover && a.cover is Some {
        RAW_URL_PREFIX@ + url_encoded(a.cover->0)
    } else {
        DEFAULT_COVER@
    }
}

/// The card of one album on the index page.
pub open spec fn album_card(a: AlbumView, show_cover: bool) -> Seq<char> {
    CARD_0@ + VIEWER_URL_PREFIX@ + url_encoded(a.path) + CARD_1@ + html_escaped(lowercase_of(a.name))
        + CARD_2@ + cover_url(a, show_cover) + CARD_3@ + html_escaped(a.name) + CARD_4@
        + html_escaped(a.name) + CARD_5@ + html_escaped(a.name) + CARD_6@ + decimal(
        a.image_count,
    ) + CARD_7@
}

/// The cards of all albums, in order.
pub open spec fn album_cards(albums: Seq<AlbumView>, show_cover: bool) -> Seq<char>
    decreases albums.len(),
{
    if albums.len() == 0 {
        Seq::empty()
    } else {
        album_cards(albums.drop_last(), show_cover) + album_card(albums.last(), show_cover)
    }
}

pub struct ConfigView {
    pub title: Seq<char>,
    pub subtitle: Seq<char>,
    pub footer: Seq<char>,
    pub primary_color: Seq<char>,
    pub show_cover: bool,
}

pub open spec fn config_view(c: Config) -> ConfigView {
    ConfigView {
        title: c.title@,
        subtitle: c.subtitle@,
        footer: c.footer@,
        primary_color: c.primary_color@,
        show_cover: c.show_cover,
    }
}

/// The index page for `albums`.
pub open spec fn index_page(albums: Seq<AlbumView>, c: ConfigView) -> Seq<char> {
    let n = decimal(albums.len());
    INDEX_0@ + c.title + INDEX_1@ + c.primary_color + INDEX_2@ + c.title + INDEX_3@ + n + INDEX_4@
        + n + INDEX_5@ + c.subtitle + INDEX_6@ + (if albums.len() == 0 {
        EMPTY_HINT@
    } else {
        Seq::empty()
    }) + INDEX_7@ + album_cards(albums, c.show_cover) + INDEX_8@ + c.footer + INDEX_9@
}

fn push_str(out: &mut String, s: &str)
    ensures
        final(out)@ == old(out)@ + s@,
{
    out.append(s);
}

#[verifier::spinoff_prover]
#[verifier::rlimit(40)]
fn push_album_card(out: &mut String, a: &Album, show_cover: bool)
    ensures
        final(out)@ == old(out)@ + album_card(a@, show_cover),
{
    let ghost start = out@;
    push_str(out, CARD_0);
    push_str(out, VIEWER_URL_PREFIX);
    let v = url_encode(a.path.as_str());
    push_str(out, v.as_str());
    push_str(out, CARD_1);
    let lower = to_lowercase(a.name.as_str());
    push_html_escaped(out, lower.as_str());
    push_str(out, CARD_2);
    match &a.cover {
        Some(c) => {
            if show_cover {
                push_str(out, RAW_URL_PREFIX);
                let u = url_encode(c.as_str());
                push_str(out, u.as_str());
            } else {
                push_str(out, DEFAULT_COVER);
            }
        },
        None => {
            push_str(out, DEFAULT_COVER);
        },
    }
    push_str(out, CARD_3);
    push_html_escaped(out, a.name.as_str());
    push_str(out, CARD_4);
    push_html_escaped(out, a.name.as_str());
    push_str(out, CARD_5);
    push_html_escaped(out, a.name.as_str());
    push_str(out, CARD_6);
    push_decimal(out, a.image_count);
    push_str(out, CARD_7);
    assert(out@ =~= start + album_card(a@, show_cover));
}

/// Renders the index page: one card per album, with the configured title,
/// colour, subtitle and footer.
pub fn render_index(albums: &[Album], config: &Config) -> (r: String)
    ensures
        r@ == index_page(album_views(albums@), config_view(*config)),
{
    let ghost av = album_views(albums@);
    let mut cards = String::new();
    let mut i: usize = 0;
    while i < albums.len()
        invariant
            i <= albums@.len(),
            av == album_views(albums@),
            cards@ == album_cards(av.take(i as int), config.show_cover),
        decreases albums.len() - i,
    {
        assert(av.take(i + 1).drop_last() == av.take(i as int));
        assert(av.take(i + 1).last() == albums@[i as int]@);
        push_album_card(&mut cards, &albums[i], config.show_cover);
        i = i + 1;
    }
    assert(av.take(albums@.len() as int) == av);
    let mut out = String::new();
    push_str(&mut out, INDEX_0);
    push_str(&mut out, config.title.as_str());
    push_str(&mut out, INDEX_1);
    push_str(&mut out, config.primary_color.as_str());
    push_str(&mut out, INDEX_2);
    push_str(&mut out, config.title.as_str());
    push_str(&mut out, INDEX_3);
    push_decimal(&mut out, albums.len());
    push_str(&mut out, INDEX_4);
    push_decimal(&mut out, albums.len());
    push_str(&mut out, INDEX_5);
    push_str(&mut out, config.subtitle.as_str());
    push_str(&mut out, INDEX_6);
    if albums.len() == 0 {
        push_str(&mut out, EMPTY_HINT);
    }
    push_str(&mut out, INDEX_7);
    push_str(&mut out, cards.as_str());
    push_str(&mut out, INDEX_8);
    push_str(&mut out, config.footer.as_str());
    push_str(&mut out, INDEX_9);
    assert(out@ =~= index_page(av, config_view(*config)));
    out
}

// ---------------------------------------------------------------------------
// The reader page
// ---------------------------------------------------------------------------

/// The reader page, given the escaped album name, the number of images and
/// the JSON list of image paths.
pub open spec fn viewer_page(name: Seq<char>, total: nat, images_json: Seq<char>) -> Seq<char> {
    VIEWER_0@ + name + VIEWER_1@ + name + VIEWER_2@ + decimal(total) + VIEWER_3@ + images_json
        + VIEWER_4@
}

/// Renders the reader page of `album`, given the JSON list of its images.
pub fn render_viewer_page(album: &AlbumImages, images_json: &str) -> (r: String)
    ensures
        r@ == viewer_page(html_escaped(album.name@), album.images@.len(), images_json@),
{
    let name = html_escape(album.name.as_str());
    let mut out = String::new();
    push_str(&mut out, VIEWER_0);
    push_str(&mut out, name.as_str());
    push_str(&mut out, VIEWER_1);
    push_str(&mut out, name.as_str());
    push_str(&mut out, VIEWER_2);
    push_decimal(&mut out, album.images.len());
    push_str(&mut out, VIEWER_3);
    push_str(&mut out, images_json);
    push_str(&mut out, VIEWER_4);
    assert(out@ =~= viewer_page(html_escaped(album.name@), album.images@.len(), images_json@));
    out
}

/// Renders the reader page of `album`: flip and scroll modes over its
/// images.
pub fn render_viewer(album: &AlbumImages) -> (r: String)
    ensures
        r@ == viewer_page(
            html_escaped(album.name@),
            album.images@.len(),
            json_string_array(string_views(album.images@)),
        ),
{
    let json = json_encode_strings(&album.images);
    render_viewer_page(album, json.as_str())
}

} // verus!

//! Noise avatars: a name hashed with djb2 picks the noise seed and hue of an
//! SVG, which `resvg` can rasterize; and the parsing of avatar URLs.

use vstd::prelude::*;
use crate::decimal::{decimal_digits, push_decimal};
use crate::codec::{png_header, png_rgba};
use resvg::usvg::TreeParsing;

verus! {

broadcast use vstd::string::group_string_axioms;

// ---------------------------------------------------------------- djb2

/// The value of a hexadecimal digit (either case), or 1 for any other
/// character.
pub open spec fn hex_value_or_one(c: char) -> u32 {
    if '0' <= c && c <= '9' {
        (c as u32 - '0' as u32) as u32
    } else if 'a' <= c && c <= 'f' {
        (c as u32 - 'a' as u32 + 10) as u32
    } else if 'A' <= c && c <= 'F' {
        (c as u32 - 'A' as u32 + 10) as u32
    } else {
        1
    }
}

fn hex_value_or_one_exec(c: char) -> (v: u32)
    ensures
        v == hex_value_or_one(c),
{
    if '0' <= c && c <= '9' {
        c as u32 - '0' as u32
    } else if 'a' <= c && c <= 'f' {
        c as u32 - 'a' as u32 + 10
    } else if 'A' <= c && c <= 'F' {
        c as u32 - 'A' as u32 + 10
    } else {
        1
    }
}

/// djb2 over the digit values of the characters: starting from 5381, each
/// character turns `hash` into `hash * 33 + value`, modulo 2^32.
pub open spec fn spec_djb2(s: Seq<char>) -> u32
    decreases s.len(),
{
    if s.len() == 0 {
        5381
    } else {
        ((spec_djb2(s.drop_last()) as int * 33 + hex_value_or_one(s.last())) % 0x1_0000_0000) as u32
    }
}

/// djb2 of a character slice.
pub fn djb2_chars(chars: &[char]) -> (hash: u32)
    ensures
        hash == spec_djb2(chars@),
{
    let mut hash: u32 = 5381;
    for i in 0..chars.len()
        invariant
            hash == spec_djb2(chars@.take(i as int)),
    {
        proof {
            assert(chars@.take(i + 1).drop_last() =~= chars@.take(i as int));
        }
        // (hash << 5) + hash + value, wrapping as in a release build.
        hash = hash.wrapping_mul(33).wrapping_add(hex_value_or_one_exec(chars[i]));
    }
    proof {
        assert(chars@.take(chars@.len() as int) =~= chars@);
    }
    hash
}

/// The characters of a string.
pub fn str_chars(s: &str) -> (chars: Vec<char>)
    ensures
        chars@ == s@,
{
    let mut chars: Vec<char> = Vec::new();
    for c in it: s.chars()
        invariant
            it.seq() == s@,
            chars@ == s@.take(it.index()),
    {
        proof {
            assert(s@.take(it.index() + 1) =~= s@.take(it.index()).push(c));
        }
        chars.push(c);
    }
    proof {
        assert(s@.take(s@.len() as int) =~= s@);
    }
    chars
}

/// The djb2 hash of a name. Each step is `((hash << 5) + hash) + value` in
/// 32-bit arithmetic, wrapping on overflow as in a release build.
pub fn djb2(str: &str) -> (hash: u32)
    ensures
        hash == spec_djb2(str@),
{
    let chars = str_chars(str);
    djb2_chars(chars.as_slice())
}

// ---------------------------------------------------------------- SVG

pub const SVG_OPEN: &'static str = "<svg
        xmlns=\"http://www.w3.org/2000/svg\"
        version=\"1.1\"
        viewBox=\"0 0 48 48\"
        width=\"";

pub const SVG_AFTER_WIDTH: &'static str = "\"
        height=\"";

pub const SVG_AFTER_HEIGHT: &'static str = "\"
    >
        <defs>
        <filter
            id=\"nnnoise-filter\"
            x=\"0%\"
            y=\"0%\"
            width=\"100%\"
            height=\"100%\"
            filterUnits=\"objectBoundingBox\"
            primitiveUnits=\"userSpaceOnUse\"
            colorInterpolationFilters=\"linearRGB\"
        >
            <feTurbulence
                type=\"fractalNoise\"
                baseFrequency=\"0.05\"
                numOctaves=\"2\"
                seed=\"";

pub const SVG_AFTER_SEED: &'static str = "\"
                stitchTiles=\"stitch\"
                x=\"0%\"
                y=\"0%\"
                width=\"100%\"
                height=\"100%\"
                result=\"turbulence\"
                ></feTurbulence>
                <feSpecularLighting
                surfaceScale=\"15\"
                specularConstant=\"0.75\"
                specularExponent=\"20\"
                lightingColor=\"#fff\"
                x=\"0%\"
                y=\"0%\"
                width=\"100%\"
                height=\"100%\"
                in=\"turbulence\"
                result=\"specularLighting\"
            >
            <feDistantLight azimuth=\"3\" elevation=\"100\"></feDistantLight>
            </feSpecularLighting>
        </filter>
        </defs>
        <rect width=\"48\" height=\"48\" fill=\"";

pub const SVG_CLOSE: &'static str = "\"></rect>
        <rect
            width=\"48\"
            height=\"48\"
            fill=\"#ffffff\"
            filter=\"url(#nnnoise-filter)\"
        ></rect>
    </svg>";

/// The fill colour of the avatar: the hue `hash % 360` at 35% saturation and
/// 30% lightness, or near-black without colour.
pub open spec fn spec_avatar_color(hash: u32, is_color: bool) -> Seq<char> {
    if is_color {
        "hsl("@ + decimal_digits((hash % 360) as nat) + ", 35%, 30%)"@
    } else {
        "#111111ff"@
    }
}

/// The avatar SVG: a 48 by 48 view box shown at `size` pixels, a rectangle
/// in the fill colour and one covered by fractal noise seeded with `hash`.
pub open spec fn spec_riptar_svg(size: u32, hash: u32, is_color: bool) -> Seq<char> {
    SVG_OPEN@ + decimal_digits(size as nat) + SVG_AFTER_WIDTH@ + decimal_digits(size as nat)
        + SVG_AFTER_HEIGHT@ + decimal_digits(hash as nat) + SVG_AFTER_SEED@ + spec_avatar_color(
        hash,
        is_color,
    ) + SVG_CLOSE@
}

/// Writes the avatar SVG.
pub fn riptar_svg(size: u32, hash: u32, is_color: bool) -> (svg: String)
    ensures
        svg@ == spec_riptar_svg(size, hash, is_color),
{
    let mut color = String::new();
    if is_color {
        color.append("hsl(");
        push_decimal(&mut color, hash % 360);
        color.append(", 35%, 30%)");
    } else {
        color.append("#111111ff");
    }
    let mut svg = String::new();
    svg.append(SVG_OPEN);
    push_decimal(&mut svg, size);
    svg.append(SVG_AFTER_WIDTH);
    push_decimal(&mut svg, size);
    svg.append(SVG_AFTER_HEIGHT);
    push_decimal(&mut svg, hash);
    svg.append(SVG_AFTER_SEED);
    svg.append(color.as_str());
    svg.append(SVG_CLOSE);
    proof {
        assert(color@ == spec_avatar_color(hash, is_color)) by {
            if is_color {
                assert(color@ =~= "hsl("@ + decimal_digits((hash % 360) as nat) + ", 35%, 30%)"@);
            } else {
                assert(color@ =~= "#111111ff"@);
            }
        }
        assert(svg@ =~= spec_riptar_svg(size, hash, is_color));
    }
    svg
}


// ---------------------------------------------------------------- rendering

/// Whether `usvg` accepts a text as SVG (`Tree::from_str` with the default
/// options returns `Ok`). Parsing fails only on the text itself: images it
/// cannot load are left out, not reported.
pub uninterp spec fn svg_parses(svg: Seq<char>) -> bool;

/// Whether `tiny_skia::Pixmap::new(size, size)` gives a pixmap: the side is
/// not 0, a row of `4 * size` bytes fits in an `i32`, and the `4 * size * size`
/// bytes of the pixmap fit in a `usize`.
pub open spec fn pixmap_fits(size: u32) -> bool {
    &&& 0 < size <= 0x1FFF_FFFF
    &&& size as int * size as int * 4 <= usize::MAX
}

/// `usvg::Tree::from_str(svg, &Options::default())`, `resvg::Tree::from_usvg`,
/// a `size` by `size` `tiny_skia::Pixmap`, `render` with the identity
/// transform and `encode_png`. Parsing succeeds exactly when `svg_parses`;
/// the pixmap exists exactly when `pixmap_fits(size)`; rendering returns
/// nothing, and `encode_png` writes into memory, where its only other errors
/// (zero size, a colour combination or buffer length that does not match)
/// cannot arise, so a PNG comes back exactly then. What is drawn is not
/// stated: images that the SVG links to are read from disk. The `png` crate
/// writes the signature and the IHDR chunk first: an 8-bit RGBA image,
/// `size` pixels square.
#[verifier::external_body]
fn rasterize_svg(svg: &str, size: u32) -> (png: Option<Vec<u8>>)
    ensures
        png is Some <==> (svg_parses(svg@) && pixmap_fits(size)),
        png matches Some(bytes) ==> bytes@.len() >= 29 && bytes@.take(29) == png_header(
            size,
            size,
            png_rgba(),
        ),
{
    let tree = resvg::usvg::Tree::from_str(svg, &resvg::usvg::Options::default()).ok()?;
    let tree = resvg::Tree::from_usvg(&tree);
    let mut pixmap = resvg::tiny_skia::Pixmap::new(size, size)?;
    tree.render(resvg::tiny_skia::Transform::default(), &mut pixmap.as_mut());
    pixmap.encode_png().ok()
}

/// Renders an SVG to a `size` by `size` RGBA PNG with `resvg`: a PNG exactly where
/// the text is SVG that `usvg` accepts and a pixmap of that size can be made.
pub fn render_svg(svg: &str, size: u32) -> (png: Option<Vec<u8>>)
    ensures
        png is Some <==> (svg_parses(svg@) && pixmap_fits(size)),
        png matches Some(bytes) ==> bytes@.len() >= 29 && bytes@.take(29) == png_header(
            size,
            size,
            png_rgba(),
        ),
{
    rasterize_svg(svg, size)
}

// ---------------------------------------------------------------- URLs

/// The path of a URL and its query as decoded name/value pairs, as the `url`
/// crate gives them (`Url::parse`, `path`, `query_pairs`), or `None` where
/// the text is not a URL.
pub uninterp spec fn url_path_and_query(text: Seq<char>) -> Option<
    (Seq<char>, Seq<(Seq<char>, Seq<char>)>),
>;

/// The text of each pair.
pub open spec fn pairs_view(pairs: Seq<(String, String)>) -> Seq<(Seq<char>, Seq<char>)> {
    pairs.map_values(|p: (String, String)| (p.0@, p.1@))
}

/// `Url::parse(text)`, then the path and the query pairs, owned.
#[verifier::external_body]
pub(crate) fn parse_url(text: &str) -> (parts: Option<(String, Vec<(String, String)>)>)
    ensures
        match parts {
            None => url_path_and_query(text@) is None,
            Some((path, pairs)) => url_path_and_query(text@) == Some((path@, pairs_view(pairs@))),
        },
{
    let url = url::Url::parse(text).ok()?;
    let pairs = url.query_pairs().map(|(k, v)| (k.into_owned(), v.into_owned())).collect();
    Some((url.path().to_string(), pairs))
}

/// Splitting the first `n` characters of a path at '/': the segments
/// completed so far, without empty ones, and the segment being read.
pub open spec fn split_upto(path: Seq<char>, n: int) -> (Seq<Seq<char>>, Seq<char>)
    decreases n,
{
    if n <= 0 {
        (Seq::empty(), Seq::empty())
    } else {
        let prev = split_upto(path, n - 1);
        if path[n - 1] == '/' {
            (if prev.1.len() > 0 { prev.0.push(prev.1) } else { prev.0 }, Seq::empty())
        } else {
            (prev.0, prev.1.push(path[n - 1]))
        }
    }
}

/// The non-empty segments of a path split at '/'.
pub open spec fn path_segments(path: Seq<char>) -> Seq<Seq<char>> {
    let split = split_upto(path, path.len() as int);
    if split.1.len() > 0 {
        split.0.push(split.1)
    } else {
        split.0
    }
}

/// Splits a path at '/' and drops empty segments.
pub fn split_path(path: &str) -> (segments: Vec<Vec<char>>)
    ensures
        segments.deep_view() == path_segments(path@),
{
    let chars = str_chars(path);
    let mut done: Vec<Vec<char>> = Vec::new();
    let mut current: Vec<char> = Vec::new();
    for i in 0..chars.len()
        invariant
            chars@ == path@,
            (done.deep_view(), current@) == split_upto(path@, i as int),
    {
        if chars[i] == '/' {
            if current.len() > 0 {
                let ghost before = done.deep_view();
                let ghost cur = current@;
                assert(current.deep_view() =~= cur);
                done.push(current);
                assert(done.deep_view() =~= before.push(cur));
            }
            current = Vec::new();
        } else {
            current.push(chars[i]);
        }
    }
    if current.len() > 0 {
        let ghost before = done.deep_view();
        let ghost cur = current@;
        assert(current.deep_view() =~= cur);
        done.push(current);
        assert(done.deep_view() =~= before.push(cur));
    }
    done
}

/// The value of the first pair named `key`.
pub open spec fn first_value(pairs: Seq<(Seq<char>, Seq<char>)>, key: Seq<char>) -> Option<
    Seq<char>,
>
    decreases pairs.len(),
{
    if pairs.len() == 0 {
        None
    } else if pairs[0].0 == key {
        Some(pairs[0].1)
    } else {
        first_value(pairs.drop_first(), key)
    }
}

fn find_first_value(pairs: &Vec<(String, String)>, key: &str) -> (value: Option<String>)
    ensures
        match value {
            None => first_value(pairs_view(pairs@), key@) is None,
            Some(v) => first_value(pairs_view(pairs@), key@) == Some(v@),
        },
{
    let key_text = key.to_owned();
    let ghost all = pairs_view(pairs@);
    assert(all.skip(0) =~= all);
    for i in 0..pairs.len()
        invariant
            key_text@ == key@,
            all == pairs_view(pairs@),
            first_value(all, key@) == first_value(all.skip(i as int), key@),
    {
        proof {
            assert(all.skip(i as int).drop_first() =~= all.skip(i + 1));
        }
        if pairs[i].0 == key_text {
            return Some(pairs[i].1.clone());
        }
    }
    proof {
        assert(all.skip(all.len() as int) =~= Seq::<(Seq<char>, Seq<char>)>::empty());
    }
    None
}

fn chars_equal(a: &Vec<char>, b: &str) -> (same: bool)
    ensures
        same == (a@ == b@),
{
    let bc = str_chars(b);
    if a.len() != bc.len() {
        return false;
    }
    for i in 0..a.len()
        invariant
            a@.len() == bc@.len(),
            bc@ == b@,
            forall|j: int| 0 <= j < i ==> a@[j] == bc@[j],
    {
        if a[i] != bc[i] {
            return false;
        }
    }
    assert(a@ =~= b@);
    true
}

/// What an avatar URL asks for: the path must be "/riptar" or
/// "/riptar/<name>" (empty segments ignored), and the first `format` pair
/// must say "png". Gives the djb2 hash of the name ("riptar" when none is
/// given) and whether the first `color` pair says "on".
pub open spec fn spec_riptar_request(path: Seq<char>, pairs: Seq<(Seq<char>, Seq<char>)>) -> Option<
    (u32, bool),
> {
    let segments = path_segments(path);
    if !((segments.len() == 1 || segments.len() == 2) && segments[0] == "riptar"@) {
        None
    } else if first_value(pairs, "format"@) != Some("png"@) {
        None
    } else {
        Some((spec_djb2(segments.last()), first_value(pairs, "color"@) == Some("on"@)))
    }
}

/// Reads an avatar request from the path and query pairs of a URL.
pub fn riptar_request(path: &str, pairs: &Vec<(String, String)>) -> (request: Option<(u32, bool)>)
    ensures
        request == spec_riptar_request(path@, pairs_view(pairs@)),
{
    proof {
        reveal_strlit("riptar");
        reveal_strlit("png");
        reveal_strlit("on");
    }
    let segments = split_path(path);
    let ghost segs = path_segments(path@);
    if !((segments.len() == 1 || segments.len() == 2) && chars_equal(&segments[0], "riptar")) {
        assert(segments@.len() > 0 ==> segments@[0]@ == segs[0]);
        return None;
    }
    assert(segments@[0]@ == segs[0]);
    let format = find_first_value(pairs, "format");
    let is_png = match &format {
        Some(f) => {
            let png = "png".to_owned();
            *f == png
        },
        None => false,
    };
    if !is_png {
        return None;
    }
    let color = find_first_value(pairs, "color");
    let is_on = match &color {
        Some(c) => {
            let on = "on".to_owned();
            *c == on
        },
        None => false,
    };
    let last = segments.len() - 1;
    assert(segments@[last as int]@ == segs.last());
    let hash = djb2_chars(segments[last].as_slice());
    Some((hash, is_on))
}

/// The avatar SVG that a URL of this service asks for, with the size of its
/// PNG: for "/riptar" or "/riptar/<name>" with `format=png`, the 128-pixel
/// avatar of the name's hash, coloured where `color=on`.
pub open spec fn spec_avatar_svg_for_url(url: Seq<char>) -> Option<Seq<char>> {
    match url_path_and_query(url) {
        None => None,
        Some((path, pairs)) => match spec_riptar_request(path, pairs) {
            None => None,
            Some((hash, color)) => Some(spec_riptar_svg(128, hash, color)),
        },
    }
}

/// The avatar SVG that a URL of this service asks for, if any.
pub fn avatar_svg_for_url(url: &str) -> (svg: Option<String>)
    ensures
        match svg {
            None => spec_avatar_svg_for_url(url@) is None,
            Some(s) => spec_avatar_svg_for_url(url@) == Some(s@),
        },
{
    let (path, pairs) = match parse_url(url) {
        Some(parts) => parts,
        None => {
            return None;
        },
    };
    let (hash, color) = match riptar_request(path.as_str(), &pairs) {
        Some(request) => request,
        None => {
            return None;
        },
    };
    Some(riptar_svg(128, hash, color))
}

/// The PNG of an avatar URL served by this service: the avatar SVG that the
/// URL asks for, rendered 128 pixels square; `None` exactly where the URL asks
/// for none or `usvg` does not accept that SVG.
pub fn try_riptar_bytes(url: &str) -> (png: Option<Vec<u8>>)
    ensures
        png is Some <==> (spec_avatar_svg_for_url(url@) matches Some(svg) && svg_parses(svg)),
        png matches Some(bytes) ==> bytes@.len() >= 29 && bytes@.take(29) == png_header(
            128,
            128,
            png_rgba(),
        ),
{
    match avatar_svg_for_url(url) {
        Some(svg) => render_svg(svg.as_str(), 128),
        None => None,
    }
}

} // verus!

use vstd::prelude::*;
use vstd::string::StrSliceExecFns;
use crate::color_image::ColorImage;
use crate::types::image_rotation::ImageRotation;

verus! {

/// What `str::to_lowercase` makes of a text.
pub uninterp spec fn lowercased(text: Seq<char>) -> Seq<char>;

/// `str::to_lowercase`: the text with each letter replaced by its lower
/// case form; the result is known by the name `lowercased` only.
pub assume_specification[ str::to_lowercase ](s: &str) -> (lower: String)
    ensures
        lower@ == lowercased(s@),
;

/// `String::push`: the character is added at the end of the text.
pub assume_specification[ String::push ](s: &mut String, c: char)
    ensures
        final(s)@ == old(s)@.push(c),
;

/// The character as it may stand in a file name: a small Latin letter or a
/// digit as it is, an underscore for any other.
pub open spec fn pathified_char(c: char) -> char {
    if ('a' <= c && c <= 'z') || ('0' <= c && c <= '9') {
        c
    } else {
        '_'
    }
}

/// The text with every character as it may stand in a file name.
pub open spec fn pathified(text: Seq<char>) -> Seq<char> {
    Seq::new(text.len(), |i: int| pathified_char(text[i]))
}

/// Makes a text of lower case letters fit for a file name: whatever is no
/// small Latin letter and no digit becomes an underscore.
pub fn pathify_lowercased(lower: &str) -> (r: String)
    ensures
        r@ == pathified(lower@),
{
    let n: usize = lower.unicode_len();
    let mut r = String::new();
    let mut i: usize = 0;
    while i < n
        invariant
            n == lower@.len(),
            0 <= i <= n,
            r@ == pathified(lower@.take(i as int)),
        decreases n - i,
    {
        let c: char = lower.get_char(i);
        let kept: char = if (c >= 'a' && c <= 'z') || (c >= '0' && c <= '9') {
            c
        } else {
            '_'
        };
        r.push(kept);
        proof {
            assert(r@ =~= pathified(lower@.take(i + 1)));
        }
        i += 1;
    }
    proof {
        assert(lower@.take(n as int) =~= lower@);
    }
    r
}

/// Makes a text fit for a file name: its letters are made lower case, and
/// whatever is then no small Latin letter and no digit becomes an underscore.
pub fn pathify_string(s: String) -> (r: String)
    ensures
        r@ == pathified(lowercased(s@)),
{
    let lower: String = s.as_str().to_lowercase();
    pathify_lowercased(lower.as_str())
}

/// The picture turned clockwise by `rotation`.
pub fn rotate_image(img: ColorImage, rotation: ImageRotation) -> (r: ColorImage)
    requires
        img.wf(),
    ensures
        r.wf(),
        r@ == img@.rotated(rotation),
{
    img.rotated(rotation)
}

/// The bytes of a picture of four bytes a pixel without each fourth byte.
pub open spec fn without_alpha(rgba: Seq<u8>) -> Seq<u8> {
    Seq::new((rgba.len() / 4 * 3) as nat, |i: int| rgba[i / 3 * 4 + i % 3])
}

/// Drops the alpha channel of a picture: of every four bytes of `rgba`, the
/// first three are kept. Bytes at the end that make no whole pixel are left out.
pub fn rgba8_to_rgb8(rgba: &Vec<u8>) -> (rgb: Vec<u8>)
    ensures
        rgb@ == without_alpha(rgba@),
{
    let n: usize = rgba.len();
    let pixels: usize = n / 4;
    let mut rgb: Vec<u8> = Vec::with_capacity(pixels * 3);
    let mut p: usize = 0;
    while p < pixels
        invariant
            n == rgba@.len(),
            pixels == n / 4,
            4 * pixels <= n,
            0 <= p <= pixels,
            rgb@.len() == 3 * p,
            forall|i: int| 0 <= i < 3 * p ==> (#[trigger] rgb@[i]) == rgba@[i / 3 * 4 + i % 3],
        decreases pixels - p,
    {
        rgb.push(rgba[4 * p]);
        rgb.push(rgba[4 * p + 1]);
        rgb.push(rgba[4 * p + 2]);
        p += 1;
    }
    proof {
        assert(rgb@ =~= without_alpha(rgba@));
    }
    rgb
}

} // verus!

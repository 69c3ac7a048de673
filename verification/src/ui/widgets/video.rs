//! What the video widget computes itself: the address it hands to the media
//! pipeline, and the bytes of the image that marks its overlay.

use vstd::prelude::*;

use crate::text::{
    append_chars, chars_of, replace_char, starts_with, strip_all, with_replaced, without_leading,
};

verus! {

/// Whether `src` is an address already: it starts with `http://`,
/// `https://` or `file://`.
pub open spec fn is_address(src: Seq<char>) -> bool {
    "http://"@.is_prefix_of(src) || "https://"@.is_prefix_of(src) || "file://"@.is_prefix_of(src)
}

/// Whether `src` is an address already.
pub fn names_address(src: &str) -> (yes: bool)
    ensures
        yes == is_address(src@),
{
    let chars = chars_of(src);
    starts_with(&chars, &chars_of("http://")) || starts_with(&chars, &chars_of("https://"))
        || starts_with(&chars, &chars_of("file://"))
}

/// `s` without the one `prefix` at its start, if it starts with it.
pub open spec fn strip_once(s: Seq<char>, prefix: Seq<char>) -> Seq<char> {
    if prefix.is_prefix_of(s) {
        s.skip(prefix.len() as int)
    } else {
        s
    }
}

/// The `file` address of the absolute path `path`: backslashes become
/// slashes, the prefix `//?/` of a long path goes, and so do the slashes at
/// the start.
pub open spec fn file_address(path: Seq<char>) -> Seq<char> {
    "file:///"@ + strip_all(strip_once(replace_char(path, '\\', '/'), "//?/"@), seq!['/'])
}

/// The `file` address of the absolute path `path`.
pub fn file_uri(path: &str) -> (uri: String)
    ensures
        uri@ == file_address(path@),
{
    let slashed = with_replaced(&chars_of(path), '\\', '/');
    let long = chars_of("//?/");
    let short = if starts_with(&slashed, &long) {
        let rest = crate::text::slice_of(&slashed, long.len(), slashed.len());
        assert(rest@ =~= slashed@.skip(long@.len() as int));
        rest
    } else {
        slashed
    };
    let mut slash: Vec<char> = Vec::new();
    slash.push('/');
    assert(slash@ =~= seq!['/']);
    let bare = without_leading(&short, &slash);
    let mut uri = "file:///".to_owned();
    append_chars(&mut uri, &bare);
    uri
}

/// The four bytes of `id`, lowest first.
pub open spec fn id_bytes(id: u32) -> Seq<u8> {
    seq![
        (id & 0xff) as u8,
        ((id >> 8) & 0xff) as u8,
        ((id >> 16) & 0xff) as u8,
        ((id >> 24) & 0xff) as u8,
    ]
}

/// The bytes of the image of `width` by `height` pixels that marks an
/// overlay: four bytes for each pixel, all zero but the first four, which
/// hold `id`, lowest byte first. Without a pixel there is no byte.
pub open spec fn overlay_key(id: u32, width: u32, height: u32) -> Seq<u8> {
    Seq::new(
        (width * height * 4) as nat,
        |i: int|
            if i < 4 {
                id_bytes(id)[i]
            } else {
                0u8
            },
    )
}

/// The bytes of the image that marks the overlay number `id`.
pub fn overlay_key_bytes(id: u32, width: u32, height: u32) -> (bytes: Vec<u8>)
    requires
        width * height * 4 <= usize::MAX,
    ensures
        bytes@ == overlay_key(id, width, height),
{
    let pixels: u64 = width as u64 * height as u64;
    assert(pixels * 4 == width * height * 4) by (nonlinear_arith)
        requires
            pixels == width * height,
    ;
    assert(width * height <= 0xffff_ffff * 0xffff_ffff) by (nonlinear_arith)
        requires
            width <= 0xffff_ffff,
            height <= 0xffff_ffff,
    ;
    let len: usize = (pixels * 4) as usize;
    let first = [
        (id & 0xff) as u8,
        ((id >> 8) & 0xff) as u8,
        ((id >> 16) & 0xff) as u8,
        ((id >> 24) & 0xff) as u8,
    ];
    let mut bytes: Vec<u8> = Vec::new();
    let mut i: usize = 0;
    while i < len
        invariant
            i <= len,
            len == width * height * 4,
            first@ == id_bytes(id),
            bytes@ == overlay_key(id, width, height).take(i as int),
        decreases len - i,
    {
        bytes.push(if i < 4 {
            first[i]
        } else {
            0
        });
        i += 1;
        assert(bytes@ =~= overlay_key(id, width, height).take(i as int));
    }
    assert(overlay_key(id, width, height).take(len as int) =~= overlay_key(id, width, height));
    bytes
}

} // verus!

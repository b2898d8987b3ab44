//! How an image goes into a page.

use crate::report::card::ImageRefV;
use crate::report::img::{extension_of, mime_of, plan_of};
use crate::strs::laws::law_pieces_are_joined_by_the_character;
use crate::strs::split_on;
use vstd::prelude::*;

verus! {

/// An image is told by what stands behind the last dot of its path, whatever is before it.
pub proof fn law_image_is_told_by_its_extension(r: ImageRefV, stem: Seq<char>, ext: Seq<char>)
    requires
        r.path == stem + seq!['.'] + ext,
        forall|i: int| 0 <= i < ext.len() ==> #[trigger] ext[i] != '.',
    ensures
        extension_of(Some(r)) == ext,
        ext == "png"@ ==> mime_of(extension_of(Some(r))) == "image/png"@,
        ext == "webp"@ ==> mime_of(extension_of(Some(r))) == "image/webp"@,
        ext == "gif"@ ==> mime_of(extension_of(Some(r))) == "image/gif"@,
        ext != "png"@ && ext != "webp"@ && ext != "gif"@ ==> mime_of(extension_of(Some(r)))
            == "image/jpeg"@,
{
    law_pieces_are_joined_by_the_character(stem, ext, '.');
    law_pieces_are_joined_by_the_character(ext, ext, '.');
    assert((split_on(stem, '.') + seq![ext]).last() == ext);
    reveal_strlit("png");
    reveal_strlit("webp");
    reveal_strlit("gif");
    assert("png"@.len() == 3 && "webp"@.len() == 4 && "gif"@.len() == 3);
    assert("png"@[0] == 'p' && "gif"@[0] == 'g');
}

/// An image of less than 120 KiB, or one that does not read, is kept. A larger one is made again,
/// never wider than 720 pixels nor than it is.
pub proof fn law_small_images_are_kept(len: nat, w: u32, h: u32)
    ensures
        plan_of(len, None) is None,
        len < 120 * 1024 ==> plan_of(len, Some((w, h))) is None,
        len >= 120 * 1024 && w > 0 ==> (plan_of(len, Some((w, h))) matches Some(p) && p.width <= 720
            && p.width <= w && (p.width == w || p.width == 720) && p.quality == 78),
{
}

} // verus!

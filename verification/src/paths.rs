//! Where previews live on disk.
use vstd::prelude::*;
use vstd::string::*;
use crate::config::THUMBNAIL_DIR;
use crate::table::AddressSet;
use crate::text::chars_of;

verus! {

/// The preview file of the window at `address`.
pub open spec fn thumbnail_path_spec(address: Seq<char>) -> Seq<char> {
    THUMBNAIL_DIR@ + "/"@ + address + ".png"@
}

/// Path of the PNG preview stored for the window at `address`.
pub fn thumbnail_path(address: &str) -> (path: String)
    ensures
        path@ == thumbnail_path_spec(address@),
{
    let mut path = String::from_str(THUMBNAIL_DIR);
    path.append("/");
    path.append(address);
    path.append(".png");
    path
}


/// Whether `name` ends with ".png".
pub open spec fn ends_with_png(name: Seq<char>) -> bool {
    name.len() >= 4 && name.subrange(name.len() - 4, name.len() as int) == ".png"@
}

/// `name` with every trailing ".png" removed, as `str::trim_end_matches`
/// removes repeated matches.
pub open spec fn trim_png(name: Seq<char>) -> Seq<char>
    decreases name.len(),
{
    if ends_with_png(name) {
        trim_png(name.subrange(0, name.len() - 4))
    } else {
        name
    }
}

/// Whether the file `name` of the preview directory is a preview whose
/// window is no longer listed.
pub open spec fn stale_thumbnail(name: Seq<char>, active: Set<Seq<char>>) -> bool {
    ends_with_png(name) && !active.contains(trim_png(name))
}

fn ends_with_png_exec(chars: &Vec<char>, len: usize) -> (found: bool)
    requires
        len <= chars@.len(),
    ensures
        found == ends_with_png(chars@.take(len as int)),
{
    proof {
        reveal_strlit(".png");
    }
    if len < 4 {
        return false;
    }
    let ghost t = chars@.take(len as int);
    let found = chars[len - 4] == '.' && chars[len - 3] == 'p' && chars[len - 2] == 'n' && chars[len - 1] == 'g';
    proof {
        let tail = t.subrange(t.len() - 4, t.len() as int);
        if found {
            assert(tail =~= ".png"@);
        } else {
            if tail == ".png"@ {
                assert(tail[0] == '.' && tail[1] == 'p' && tail[2] == 'n' && tail[3] == 'g');
            }
        }
    }
    found
}

/// Whether the preview file `file_name` belongs to no address in `active`
/// and may be deleted.
pub fn is_stale_thumbnail(file_name: &str, active: &AddressSet) -> (stale: bool)
    ensures
        stale == stale_thumbnail(file_name@, active@),
{
    let chars = chars_of(file_name);
    if !ends_with_png_exec(&chars, chars.len()) {
        assert(chars@.take(chars@.len() as int) =~= chars@);
        return false;
    }
    assert(chars@.take(chars@.len() as int) =~= chars@);
    let mut len = chars.len();
    while ends_with_png_exec(&chars, len)
        invariant
            len <= chars@.len(),
            trim_png(chars@.take(len as int)) == trim_png(file_name@),
        decreases len,
    {
        assert(chars@.take(len as int).subrange(0, len - 4) =~= chars@.take(len - 4));
        len = len - 4;
    }
    let stem = String::from_str(file_name.substring_char(0, len));
    assert(stem@ =~= chars@.take(len as int));
    !active.contains(&stem)
}
} // verus!

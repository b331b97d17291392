//! Serving the files under the static directory.
use vstd::prelude::*;
use vstd::utf8::{decode_utf8, encode_utf8, encode_utf8_decode_utf8, is_char_boundary};

verus! {

/// How many bytes of a file are sent at a time.
pub const CHUNK_SIZE: usize = 1024;

/// The file that the request path `path`, under the route `root`, stands
/// for: the static directory, `/`, and the rest of the path after the
/// bytes of `root`. The path must be at least as long as `root`, and a
/// character must begin where `root` ends (else the path cannot be cut
/// there).
pub fn static_file_path(static_dir: &str, root: &str, path: &str) -> (r: String)
    requires
        encode_utf8(path@).len() <= usize::MAX,
        encode_utf8(root@).len() <= encode_utf8(path@).len(),
        is_char_boundary(encode_utf8(path@), encode_utf8(root@).len() as int),
    ensures
        r@ == static_dir@ + "/"@ + decode_utf8(
            encode_utf8(path@).subrange(encode_utf8(root@).len() as int, encode_utf8(path@).len() as int),
        ),
{
    let (_, relative_path) = path.split_at(root.len());
    proof {
        encode_utf8_decode_utf8(relative_path@);
    }
    let mut file_path = String::from_str(static_dir);
    file_path.append("/");
    file_path.append(relative_path);
    file_path
}

} // verus!

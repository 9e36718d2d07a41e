//! Where the persistent log goes.

use vstd::prelude::*;

use crate::text;

verus! {

/// The directory and the file name of a path, around its last slash; the
/// current directory where there is no slash.
pub open spec fn log_location(path: Seq<char>) -> (Seq<char>, Seq<char>) {
    let i = text::find_last_char(path, '/');
    if i > 0 {
        (path.take(i), path.skip(i + 1))
    } else if i == 0 {
        ("/"@, path.skip(1))
    } else {
        ("."@, path)
    }
}

/// Split a file path into `(directory, filename)`.
pub fn split_log_path(path: &str) -> (r: (&str, &str))
    ensures
        (r.0@, r.1@) == log_location(path@),
{
    let chars = text::chars_of(path);
    let n = chars.len();
    proof {
        text::lemma_find_last_char(path@, '/');
    }
    match text::rfind_char(chars.as_slice(), '/') {
        Some(i) => {
            let file = path.substring_char(i + 1, n);
            assert(file@ == path@.skip(i + 1));
            if i > 0 {
                let dir = path.substring_char(0, i);
                assert(dir@ == path@.take(i as int));
                (dir, file)
            } else {
                ("/", file)
            }
        },
        None => (".", path),
    }
}

/// The file name has no slash, and a path is put together again from its
/// directory and its file name.
pub proof fn law_split_log_path_rejoins(path: Seq<char>)
    ensures
        ({
            let (dir, file) = log_location(path);
            &&& !file.contains('/')
            &&& !path.contains('/') ==> dir == "."@ && file == path
            &&& path.contains('/') ==> path == dir + "/"@ + file || (dir == "/"@ && path == dir
                + file)
        }),
{
    reveal_strlit("/");
    text::lemma_find_last_char(path, '/');
    let i = text::find_last_char(path, '/');
    let (dir, file) = log_location(path);
    assert forall|j: int| 0 <= j < file.len() implies file[j] != '/' by {
        assert(file[j] == path[i + 1 + j]);
    }
    if i > 0 {
        assert(dir + "/"@ + file =~= path);
    } else if i == 0 {
        assert(dir + file =~= path);
    }
}

/// What `split_log_path` gives for a directory and a file name with a slash
/// between them, for a file in the root directory, and for a file name alone.
pub proof fn law_split_log_path(path: &str, r: (&str, &str), dir: Seq<char>, file: Seq<char>)
    requires
        call_ensures(split_log_path, (path,), r),
        !file.contains('/'),
    ensures
        dir.len() > 0 && path@ == dir + "/"@ + file ==> r.0@ == dir && r.1@ == file,
        path@ == "/"@ + file ==> r.0@ == "/"@ && r.1@ == file,
        path@ == file ==> r.0@ == "."@ && r.1@ == file,
{
    reveal_strlit("/");
    text::lemma_find_last_char(path@, '/');
    let i = text::find_last_char(path@, '/');
    if path@ == file {
        assert(i < 0) by {
            if i >= 0 {
                assert(file[i] == '/');
            }
        }
    } else if path@ == dir + "/"@ + file || path@ == "/"@ + file {
        let k = path@.len() - file.len() - 1;
        assert(path@[k] == '/');
        assert(i >= k);
        assert(i == k) by {
            if i > k {
                assert(file[i - k - 1] == path@[i]);
            }
        }
        assert(path@.skip(k + 1) =~= file);
        if path@ == dir + "/"@ + file {
            assert(path@.take(k) =~= dir);
        }
    }
}

} // verus!

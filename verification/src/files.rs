//! File upload and download through the HTTP API.
use vstd::prelude::*;
use crate::strings::{cat, cat3, chars_of, contains_seq, contains_str, starts_here};

verus! {

/// Where uploads are stored.
pub const UPLOAD_DIR: &'static str = "./uploads";

/// Where an uploaded file is stored: in the upload directory under its own
/// name, or `uploaded_file` when the form gives none.
pub fn upload_destination(file_name: Option<&str>) -> (r: String)
    ensures
        r@ == UPLOAD_DIR@ + "/"@ + match file_name {
            Some(n) => n@,
            None => "uploaded_file"@,
        },
{
    let name = match file_name {
        Some(n) => n,
        None => "uploaded_file",
    };
    cat3(UPLOAD_DIR, "/", name)
}

/// How a stored upload is named in a task request: `local:` and its path.
pub fn uploaded_link(dest: &str) -> (r: String)
    ensures
        r@ == "local:"@ + dest@,
{
    cat("local:", dest)
}

/// `s` begins with `p`.
pub open spec fn begins_with(s: Seq<char>, p: Seq<char>) -> bool {
    p.len() <= s.len() && s.take(p.len() as int) == p
}

/// The paths that may be downloaded: inside the tasks directory (written
/// `./tasks/...` or `tasks/...`, as the offered download addresses are), and
/// holding no `..`.
pub open spec fn downloadable(path: Seq<char>) -> bool {
    &&& !contains_seq(path, ".."@)
    &&& (begins_with(path, "./tasks/"@) || begins_with(path, "tasks/"@))
}

/// Whether a requested download path may be served: only files of the task
/// directories, so neither `..` nor an absolute path gets out of them.
pub fn is_safe_download_path(path: &str) -> (r: bool)
    ensures
        r == downloadable(path@),
        r ==> path@.len() > 0 && path@[0] != '/',
{
    let v = chars_of(path);
    let a = chars_of("./tasks/");
    let b = chars_of("tasks/");
    proof {
        reveal_strlit("./tasks/");
        reveal_strlit("tasks/");
    }
    assert(v@.skip(0) =~= v@);
    let inside = starts_here(&v, &a, 0) || starts_here(&v, &b, 0);
    proof {
        if inside {
            if begins_with(v@, "./tasks/"@) {
                assert(v@[0] == v@.take(8)[0]);
            } else {
                assert(v@[0] == v@.take(6)[0]);
            }
        }
    }
    inside && !contains_str(path, "..")
}

/// The `Content-Disposition` of a download named `file_name`.
pub fn attachment_header(file_name: &str) -> (r: String)
    ensures
        r@ == "attachment; filename=\""@ + file_name@ + "\""@,
{
    cat3("attachment; filename=\"", file_name, "\"")
}


/// A stored upload is found again: the pipeline reads the `local:` link that
/// the upload answers with as the stored file's path.
pub proof fn uploaded_file_is_read_back(name: Seq<char>)
    ensures
        crate::link::local_path_of("local:"@ + (UPLOAD_DIR@ + "/"@ + name)) == Some(
            UPLOAD_DIR@ + "/"@ + name,
        ),
{
    reveal_strlit("local:");
    reveal_strlit("./uploads");
    reveal_strlit("/");
    let dest = UPLOAD_DIR@ + "/"@ + name;
    let link = "local:"@ + dest;
    assert(link.take(6) =~= "local:"@);
    assert(link.skip(6) =~= dest);
    assert(dest[0] == '.');
    if dest.len() >= 6 {
        assert(dest.take(6)[0] == '.');
        assert("local:"@[0] == 'l');
        assert(dest.take(6) != "local:"@);
    }
    assert(crate::link::strip_leading(dest, "local:"@) == dest);
}

} // verus!

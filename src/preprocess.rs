use vstd::prelude::*;
use crate::text::push_char;

verus! {

/// Where a job runs, which decides its client and its remote scratch
/// directory.
#[derive(PartialEq, Eq, Structural)]
pub enum ExecutionStyle {
    /// Inside the hosting platform, with its session storage.
    Algo,
    /// Locally, against the production service.
    ProdLocal,
    /// Locally, against the test service.
    TestLocal,
}

pub const SESSION_DIRECTORY: &'static str = "data://.session";

pub const USER_DIRECTORY: &'static str = "data://.my/ProcessVideo";

/// The remote scratch directory of a job.
pub fn data_work_directory(style: &ExecutionStyle) -> (r: &'static str)
    ensures
        r@ == if *style == ExecutionStyle::Algo {
            SESSION_DIRECTORY@
        } else {
            USER_DIRECTORY@
        },
{
    match style {
        ExecutionStyle::Algo => SESSION_DIRECTORY,
        _ => USER_DIRECTORY,
    }
}

/// The file-name pattern of a job's frames: a unique prefix, a seven-digit
/// frame number, and a JPEG extension for compressed frames, else PNG.
pub open spec fn frame_pattern_text(id: Seq<char>, compressed: bool) -> Seq<char> {
    id + "-%07d."@ + if compressed {
        "jpg"@
    } else {
        "png"@
    }
}

/// See `frame_pattern_text`.
pub fn frame_pattern(id: &str, compressed: bool) -> (r: String)
    ensures
        r@ == frame_pattern_text(id@, compressed),
{
    let mut r = String::from_str(id);
    r.append("-%07d.");
    if compressed {
        r.append("jpg");
    } else {
        r.append("png");
    }
    r
}

/// The last `/`-separated segment of a path or URL.
pub open spec fn last_segment(s: Seq<char>) -> Seq<char>
    decreases s.len(),
{
    if s.len() == 0 {
        s
    } else if s.last() == '/' {
        Seq::empty()
    } else {
        last_segment(s.drop_last()).push(s.last())
    }
}

/// The local path, in `directory`, of the file a remote path names.
pub fn local_file_path(directory: &str, remote: &str) -> (r: String)
    ensures
        r@ == directory@ + seq!['/'] + last_segment(remote@),
{
    let n = remote.unicode_len();
    let mut start: usize = n;
    assert(remote@.subrange(0, n as int) =~= remote@);
    assert(last_segment(remote@) + remote@.subrange(n as int, n as int) =~= last_segment(remote@));
    while start > 0 && remote.get_char(start - 1) != '/'
        invariant
            n == remote@.len(),
            start <= n,
            last_segment(remote@) == last_segment(remote@.subrange(0, start as int)) + remote@.subrange(
                start as int,
                n as int,
            ),
        decreases start,
    {
        let ghost pre = remote@.subrange(0, start as int);
        assert(pre.drop_last() =~= remote@.subrange(0, start - 1));
        assert(remote@.subrange(start - 1, n as int) =~= seq![pre.last()] + remote@.subrange(
            start as int,
            n as int,
        ));
        assert(last_segment(pre) == last_segment(pre.drop_last()).push(pre.last()));
        assert(last_segment(pre.drop_last()).push(pre.last()) + remote@.subrange(start as int, n as int)
            =~= last_segment(pre.drop_last()) + remote@.subrange(start - 1, n as int));
        start = start - 1;
    }
    proof {
        let pre = remote@.subrange(0, start as int);
        assert(last_segment(pre) =~= Seq::<char>::empty());
        assert(Seq::<char>::empty() + remote@.subrange(start as int, n as int) =~= remote@.subrange(
            start as int,
            n as int,
        ));
    }
    let mut r = String::from_str(directory);
    push_char(&mut r, '/');
    r.append(remote.substring_char(start, n));
    r
}

} // verus!

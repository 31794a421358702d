//! Chunked download of a remote file: the path that is asked for, the chunk
//! requests, and the assembly of the chunks that come back.

use crate::text::texts;
use vstd::prelude::*;
use vstd::string::*;

verus! {

/// The number of bytes asked for in each chunk request.
pub const CHUNK_LENGTH: u32 = 1024;

/// A path segment that names something: not empty, not `.` and not `..`.
pub open spec fn is_normal(segment: Seq<char>) -> bool {
    segment.len() > 0 && segment != seq!['.'] && segment != seq!['.', '.']
}

/// `done`, with `segment` as its new last element where it is normal.
pub open spec fn close_segment(done: Seq<Seq<char>>, segment: Seq<char>) -> Seq<Seq<char>> {
    if is_normal(segment) {
        done.push(segment)
    } else {
        done
    }
}

/// Where the last segment of `path` begins: behind its last `/`, or at 0.
pub open spec fn last_start(path: Seq<char>) -> int
    decreases path.len(),
{
    if path.len() == 0 {
        0
    } else if path.last() == '/' {
        path.len() as int
    } else {
        last_start(path.drop_last())
    }
}

/// The last segment of `path`: what follows its last `/`.
pub open spec fn last_segment(path: Seq<char>) -> Seq<char> {
    path.subrange(last_start(path), path.len() as int)
}

/// The normal segments of `path` that end at a `/`, in order.
pub open spec fn closed_segments(path: Seq<char>) -> Seq<Seq<char>>
    decreases path.len(),
{
    if path.len() == 0 {
        Seq::empty()
    } else if path.last() == '/' {
        close_segment(closed_segments(path.drop_last()), last_segment(path.drop_last()))
    } else {
        closed_segments(path.drop_last())
    }
}

/// The normal segments of `path`: the pieces between its `/`, in order,
/// without the empty ones, `.` and `..`.
pub open spec fn normal_segments_of(path: Seq<char>) -> Seq<Seq<char>> {
    close_segment(closed_segments(path), last_segment(path))
}

/// The last segment lies within the path and holds no `/`.
pub proof fn lemma_last_segment(path: Seq<char>)
    ensures
        0 <= last_start(path) <= path.len(),
        !last_segment(path).contains('/'),
    decreases path.len(),
{
    if path.len() > 0 && path.last() != '/' {
        lemma_last_segment(path.drop_last());
        let s = last_start(path);
        assert forall|k: int| 0 <= k < last_segment(path).len() implies last_segment(path)[k]
            != '/' by {
            if s + k < path.len() - 1 {
                assert(last_segment(path.drop_last())[k] == path[s + k]);
            }
        }
    }
}

/// Every segment names something and holds no `/`.
pub open spec fn all_normal(segments: Seq<Seq<char>>) -> bool {
    forall|i: int|
        0 <= i < segments.len() ==> is_normal(#[trigger] segments[i]) && !segments[i].contains('/')
}

proof fn lemma_close_segment(done: Seq<Seq<char>>, segment: Seq<char>)
    requires
        all_normal(done),
        !segment.contains('/'),
    ensures
        all_normal(close_segment(done, segment)),
{
    if is_normal(segment) {
        let all = done.push(segment);
        assert forall|i: int| 0 <= i < all.len() implies is_normal(#[trigger] all[i])
            && !all[i].contains('/') by {
            if i < done.len() {
                assert(all[i] == done[i]);
            }
        }
    }
}

proof fn lemma_closed_segments_are_normal(path: Seq<char>)
    ensures
        all_normal(closed_segments(path)),
    decreases path.len(),
{
    if path.len() > 0 {
        lemma_closed_segments_are_normal(path.drop_last());
        lemma_last_segment(path.drop_last());
        lemma_close_segment(closed_segments(path.drop_last()), last_segment(path.drop_last()));
    }
}

/// No segment that is sent holds a `/`, is empty, or is `.` or `..`: what
/// would lead out of or around a directory never reaches the service.
pub proof fn lemma_segments_are_normal(path: Seq<char>)
    ensures
        all_normal(normal_segments_of(path)),
{
    lemma_closed_segments_are_normal(path);
    lemma_last_segment(path);
    lemma_close_segment(closed_segments(path), last_segment(path));
}

proof fn lemma_last_segment_grows(path: Seq<char>, c: char)
    requires
        c != '/',
    ensures
        last_segment(path.push(c)) == last_segment(path).push(c),
{
    lemma_last_segment(path);
    assert(path.push(c).drop_last() =~= path);
    assert(last_segment(path.push(c)) =~= last_segment(path).push(c));
}

proof fn lemma_behind_separator(head: Seq<char>, tail: Seq<char>)
    ensures
        closed_segments(head + seq!['/'] + tail) == normal_segments_of(head) + closed_segments(tail),
        last_segment(head + seq!['/'] + tail) == last_segment(tail),
    decreases tail.len(),
{
    let path = head + seq!['/'] + tail;
    if tail.len() == 0 {
        assert(path.drop_last() =~= head);
        assert(last_segment(path) =~= Seq::<char>::empty());
        assert(last_segment(tail) =~= Seq::<char>::empty());
        assert(normal_segments_of(head) + closed_segments(tail) =~= normal_segments_of(head));
    } else {
        let c = tail.last();
        let before = head + seq!['/'] + tail.drop_last();
        lemma_behind_separator(head, tail.drop_last());
        assert(path.drop_last() =~= before);
        assert(path =~= before.push(c));
        assert(tail =~= tail.drop_last().push(c));
        if c == '/' {
            assert(last_segment(path) =~= Seq::<char>::empty());
            assert(last_segment(tail) =~= Seq::<char>::empty());
            assert(closed_segments(path) =~= normal_segments_of(head) + closed_segments(tail));
        } else {
            lemma_last_segment_grows(before, c);
            lemma_last_segment_grows(tail.drop_last(), c);
        }
    }
}

/// A path without `/` is one segment, kept where it is normal.
pub proof fn lemma_one_segment(path: Seq<char>)
    requires
        !path.contains('/'),
    ensures
        normal_segments_of(path) == close_segment(Seq::empty(), path),
{
    lemma_no_separator(path);
    assert(last_segment(path) =~= path);
}

proof fn lemma_no_separator(path: Seq<char>)
    requires
        !path.contains('/'),
    ensures
        last_start(path) == 0,
        closed_segments(path) == Seq::<Seq<char>>::empty(),
    decreases path.len(),
{
    if path.len() > 0 {
        assert(path[path.len() - 1] != '/');
        assert forall|k: int| 0 <= k < path.drop_last().len() implies path.drop_last()[k] != '/' by {
            assert(path[k] != '/');
        }
        lemma_no_separator(path.drop_last());
    }
}

/// The segments of a path are those in front of a `/` followed by those
/// behind it.  With `lemma_one_segment` this says what the normal segments
/// are: the path is cut at every `/`, and the normal pieces are kept in
/// order.
pub proof fn lemma_cut_at_separator(head: Seq<char>, tail: Seq<char>)
    ensures
        normal_segments_of(head + seq!['/'] + tail) == normal_segments_of(head)
            + normal_segments_of(tail),
{
    lemma_behind_separator(head, tail);
    assert(normal_segments_of(head + seq!['/'] + tail) =~= normal_segments_of(head)
        + normal_segments_of(tail));
}

/// Whether `segment` is a normal path segment.
pub fn is_normal_segment(segment: &str) -> (r: bool)
    ensures
        r == is_normal(segment@),
{
    let n: usize = segment.unicode_len();
    if n == 0 {
        false
    } else if n == 1 {
        let only = segment.get_char(0);
        assert(segment@ == seq!['.'] <==> only == '.') by {
            if only == '.' {
                assert(segment@ =~= seq!['.']);
            } else {
                assert(seq!['.'][0] == '.');
            }
        }
        assert(seq!['.', '.'].len() == 2);
        only != '.'
    } else if n == 2 {
        let first = segment.get_char(0);
        let second = segment.get_char(1);
        assert(segment@ == seq!['.', '.'] <==> (first == '.' && second == '.')) by {
            if first == '.' && second == '.' {
                assert(segment@ =~= seq!['.', '.']);
            } else {
                assert(seq!['.', '.'][0] == '.' && seq!['.', '.'][1] == '.');
            }
        }
        assert(seq!['.'].len() == 1);
        !(first == '.' && second == '.')
    } else {
        assert(seq!['.'].len() == 1);
        assert(seq!['.', '.'].len() == 2);
        true
    }
}

/// Splits `path` at each `/` and keeps the normal segments.
pub fn normal_segments(path: &str) -> (r: Vec<String>)
    ensures
        texts(r@) == normal_segments_of(path@),
        all_normal(texts(r@)),
{
    let n: usize = path.unicode_len();
    let mut out: Vec<String> = Vec::new();
    let mut start: usize = 0;
    let mut i: usize = 0;
    assert(path@.take(0) =~= Seq::empty());
    assert(texts(out@) =~= Seq::empty());
    while i < n
        invariant
            n == path@.len(),
            start <= i <= n,
            start == last_start(path@.take(i as int)),
            texts(out@) == closed_segments(path@.take(i as int)),
        decreases n - i,
    {
        let c = path.get_char(i);
        let ghost before = path@.take(i as int);
        let ghost now = path@.take(i + 1);
        assert(now.drop_last() =~= before);
        assert(now.last() == c);
        if c == '/' {
            let segment = path.substring_char(start, i);
            assert(segment@ =~= last_segment(before));
            if is_normal_segment(segment) {
                let ghost had = texts(out@);
                out.push(String::from_str(segment));
                assert(texts(out@) =~= had.push(segment@));
            }
            start = i + 1;
        }
        i = i + 1;
    }
    assert(path@.take(n as int) =~= path@);
    let segment = path.substring_char(start, n);
    assert(segment@ =~= last_segment(path@));
    if is_normal_segment(segment) {
        let ghost had = texts(out@);
        out.push(String::from_str(segment));
        assert(texts(out@) =~= had.push(segment@));
    }
    proof {
        lemma_segments_are_normal(path@);
    }
    out
}

/// One chunk request.
#[derive(Debug)]
pub struct ChunkRequest {
    /// The normal segments of the file's path.
    pub components: Vec<String>,
    /// The position of the first byte asked for.
    pub offset: u64,
    /// The number of bytes asked for.
    pub length: u32,
}

/// A download as it stands.
pub struct CursorView {
    /// The normal segments of the file's path.
    pub components: Seq<Seq<char>>,
    /// The bytes received so far, in order.
    pub data: Seq<u8>,
    /// Whether the service has signalled the end of the file.
    pub finished: bool,
}

impl CursorView {
    /// The position of the next byte to ask for.
    pub open spec fn offset(self) -> nat {
        self.data.len()
    }
}

/// The download after the answer `chunk`: an empty chunk ends it and is not
/// appended, any other is appended; nothing changes once it has ended.
pub open spec fn after_chunk(c: CursorView, chunk: Seq<u8>) -> CursorView {
    if c.finished {
        c
    } else if chunk.len() == 0 {
        CursorView { finished: true, ..c }
    } else {
        CursorView { data: c.data + chunk, ..c }
    }
}

/// A download in progress.
pub struct FileFetchCursor {
    components: Vec<String>,
    data: Vec<u8>,
    finished: bool,
}

impl View for FileFetchCursor {
    type V = CursorView;

    closed spec fn view(&self) -> CursorView {
        CursorView { components: texts(self.components@), data: self.data@, finished: self.finished }
    }
}

impl FileFetchCursor {
    /// The download of `path` before its first request.
    pub fn new(path: &str) -> (r: FileFetchCursor)
        ensures
            r@ == (CursorView {
                components: normal_segments_of(path@),
                data: Seq::empty(),
                finished: false,
            }),
    {
        FileFetchCursor { components: normal_segments(path), data: Vec::new(), finished: false }
    }

    /// Whether the end of the file has been seen.
    pub fn is_finished(&self) -> (r: bool)
        ensures
            r == self@.finished,
    {
        self.finished
    }

    /// The position of the next byte to ask for.
    pub fn offset(&self) -> (r: u64)
        ensures
            r == self@.offset(),
    {
        self.data.len() as u64
    }

    /// The next request: the same segments and length each time, from the
    /// position behind the bytes received so far.
    pub fn request(&self) -> (r: ChunkRequest)
        ensures
            texts(r.components@) == self@.components,
            r.offset == self@.offset(),
            r.length == CHUNK_LENGTH,
    {
        let mut components: Vec<String> = Vec::new();
        let mut i: usize = 0;
        while i < self.components.len()
            invariant
                i <= self.components@.len(),
                components@ == self.components@.take(i as int),
            decreases self.components@.len() - i,
        {
            components.push(self.components[i].clone());
            assert(components@ =~= self.components@.take(i + 1));
            i = i + 1;
        }
        assert(self.components@.take(self.components@.len() as int) =~= self.components@);
        ChunkRequest { components, offset: self.data.len() as u64, length: CHUNK_LENGTH }
    }

    /// Takes in the answer to the last request.  Returns whether the download
    /// has ended.
    pub fn receive(&mut self, chunk: Vec<u8>) -> (r: bool)
        ensures
            final(self)@ == after_chunk(old(self)@, chunk@),
            r == final(self)@.finished,
            final(self)@.offset() >= old(self)@.offset(),
            r <==> old(self)@.finished || chunk@.len() == 0,
    {
        if !self.finished {
            if chunk.len() == 0 {
                self.finished = true;
            } else {
                let mut chunk = chunk;
                self.data.append(&mut chunk);
            }
        }
        self.finished
    }

    /// The bytes received.
    pub fn into_bytes(self) -> (r: Vec<u8>)
        ensures
            r@ == self@.data,
    {
        self.data
    }
}

/// What a service that holds `file` answers to a request for `length` bytes
/// from `offset`: the bytes from there, as many as the file still has, and
/// none at or behind its end.
pub open spec fn chunk_of(file: Seq<u8>, offset: nat, length: nat) -> Seq<u8> {
    if offset >= file.len() {
        Seq::empty()
    } else if offset + length >= file.len() {
        file.subrange(offset as int, file.len() as int)
    } else {
        file.subrange(offset as int, (offset + length) as int)
    }
}

/// The download `c` carried on against a service that holds `file`, with
/// requests of `length` bytes, until it ends.
pub open spec fn download(file: Seq<u8>, length: nat, c: CursorView) -> CursorView
    decreases file.len() - c.data.len(),
{
    let chunk = chunk_of(file, c.offset(), length);
    if c.finished || chunk.len() == 0 {
        after_chunk(c, chunk)
    } else {
        download(file, length, after_chunk(c, chunk))
    }
}

/// The number of requests that `download` makes.
pub open spec fn requests(file: Seq<u8>, length: nat, c: CursorView) -> nat
    decreases file.len() - c.data.len(),
{
    let chunk = chunk_of(file, c.offset(), length);
    if c.finished {
        0
    } else if chunk.len() == 0 {
        1
    } else {
        1 + requests(file, length, after_chunk(c, chunk))
    }
}

/// A download that holds the first bytes of `file` ends with the whole of
/// it, after one request for each chunk that is left and one more for the
/// empty answer.
pub proof fn lemma_download_completes(file: Seq<u8>, length: nat, c: CursorView)
    requires
        length > 0,
        !c.finished,
        c.data.len() <= file.len(),
        c.data == file.take(c.data.len() as int),
    ensures
        download(file, length, c) == (CursorView { data: file, finished: true, ..c }),
        requests(file, length, c) == (file.len() - c.data.len()) / (length as int) + (if (file.len()
            - c.data.len()) % (length as int) == 0 {
            1int
        } else {
            2int
        }),
    decreases file.len() - c.data.len(),
{
    let left = file.len() - c.data.len();
    let l = length as int;
    let chunk = chunk_of(file, c.offset(), length);
    if left == 0 {
        assert(c.data =~= file);
        assert(0int / l == 0 && 0int % l == 0) by (nonlinear_arith)
            requires
                l > 0,
        ;
    } else {
        let next = after_chunk(c, chunk);
        assert(next.data =~= file.take(next.data.len() as int));
        lemma_download_completes(file, length, next);
        if left <= l {
            assert(next.data.len() == file.len());
            assert(0int / l == 0 && 0int % l == 0) by (nonlinear_arith)
                requires
                    l > 0,
            ;
            assert(left / l == (if left == l {
                1int
            } else {
                0int
            }) && (left % l == 0 <==> left == l)) by (nonlinear_arith)
                requires
                    0 < left <= l,
            ;
        } else {
            assert((left - l) / l == left / l - 1 && (left - l) % l == left % l) by (nonlinear_arith)
                requires
                    left > l > 0,
            ;
        }
    }
}

/// Downloading a file of any size from its beginning yields exactly its
/// bytes: after the full chunks, a last short chunk where the size is no
/// multiple of the chunk length, and one empty answer.
pub proof fn lemma_download_reconstructs(file: Seq<u8>, components: Seq<Seq<char>>, length: nat)
    requires
        length > 0,
    ensures
        download(file, length, CursorView { components, data: Seq::empty(), finished: false })
            == (CursorView { components, data: file, finished: true }),
        requests(file, length, CursorView { components, data: Seq::empty(), finished: false })
            == file.len() / length + (if file.len() % length == 0 {
            1nat
        } else {
            2nat
        }),
{
    let start = CursorView { components, data: Seq::empty(), finished: false };
    assert(start.data =~= file.take(0));
    lemma_download_completes(file, length, start);
}

} // verus!

use vstd::prelude::*;

verus! {

/// The size of one read from the connection.
pub const BUFFER_SIZE: usize = 8192;

/// The position of the first byte of `b` that is one of the delimiters `d`.
pub open spec fn first_delimiter(b: Seq<u8>, d: Seq<u8>) -> Option<int>
    decreases b.len(),
{
    if b.len() == 0 {
        None
    } else if d.contains(b[0]) {
        Some(0)
    } else {
        match first_delimiter(b.drop_first(), d) {
            Some(i) => Some(i + 1),
            None => None,
        }
    }
}

/// The position of the first occurrence of `x` in `b`.
pub open spec fn first_byte(b: Seq<u8>, x: u8) -> Option<int> {
    first_delimiter(b, seq![x])
}

/// What `first_delimiter` finds: the earliest delimiter, or proof that there is none.
pub proof fn lemma_first_delimiter(b: Seq<u8>, d: Seq<u8>)
    ensures
        match first_delimiter(b, d) {
            Some(p) => 0 <= p < b.len() && d.contains(b[p]) && forall|j: int|
                0 <= j < p ==> !d.contains(#[trigger] b[j]),
            None => forall|j: int| 0 <= j < b.len() ==> !d.contains(#[trigger] b[j]),
        },
    decreases b.len(),
{
    if b.len() > 0 && !d.contains(b[0]) {
        lemma_first_delimiter(b.drop_first(), d);
        assert forall|j: int| 1 <= j < b.len() implies b[j] == b.drop_first()[j - 1] by {}
    }
}

/// A position with the properties of the first delimiter is the first delimiter.
pub proof fn lemma_first_delimiter_at(b: Seq<u8>, d: Seq<u8>, p: int)
    requires
        0 <= p < b.len(),
        d.contains(b[p]),
        forall|j: int| 0 <= j < p ==> !d.contains(#[trigger] b[j]),
    ensures
        first_delimiter(b, d) == Some(p),
{
    lemma_first_delimiter(b, d);
    match first_delimiter(b, d) {
        Some(q) => {
            if q < p {
                assert(!d.contains(b[q]));
            } else if q > p {
                assert(!d.contains(b[p]));
            }
        },
        None => {
            assert(!d.contains(b[p]));
        },
    }
}

/// A sequence without a delimiter has none to find.
pub proof fn lemma_no_delimiter(b: Seq<u8>, d: Seq<u8>)
    requires
        forall|j: int| 0 <= j < b.len() ==> !d.contains(#[trigger] b[j]),
    ensures
        first_delimiter(b, d) is None,
{
    lemma_first_delimiter(b, d);
    if let Some(p) = first_delimiter(b, d) {
        assert(!d.contains(b[p]));
    }
}

/// `memchr::memchr`: the index of the first occurrence of `needle` in `haystack`, if any.
#[verifier::external_body]
fn find_byte(needle: u8, haystack: &[u8]) -> (r: Option<usize>)
    ensures
        match r {
            Some(p) => first_byte(haystack@, needle) == Some(p as int),
            None => first_byte(haystack@, needle) is None,
        },
{
    memchr::memchr(needle, haystack)
}

/// The first position in `buffer` holding one of `delimiters`: the least of what each
/// delimiter's own search gives.
pub fn find_first_delimiter(delimiters: &[u8], buffer: &[u8]) -> (r: Option<usize>)
    ensures
        match r {
            Some(p) => first_delimiter(buffer@, delimiters@) == Some(p as int),
            None => first_delimiter(buffer@, delimiters@) is None,
        },
{
    let mut best: Option<usize> = None;
    let mut k: usize = 0;
    while k < delimiters.len()
        invariant
            k <= delimiters@.len(),
            match best {
                Some(p) => p < buffer@.len() && delimiters@.subrange(0, k as int).contains(buffer@[p as int])
                    && forall|j: int|
                    0 <= j < p ==> !delimiters@.subrange(0, k as int).contains(#[trigger] buffer@[j]),
                None => forall|j: int|
                    0 <= j < buffer@.len() ==> !delimiters@.subrange(0, k as int).contains(#[trigger] buffer@[j]),
            },
        decreases delimiters@.len() - k,
    {
        let x = delimiters[k];
        let found = find_byte(x, buffer);
        proof {
            lemma_first_delimiter(buffer@, seq![x]);
        }
        let ghost before = delimiters@.subrange(0, k as int);
        let ghost after = delimiters@.subrange(0, k + 1);
        assert(after =~= before.push(x));
        assert forall|y: u8| after.contains(y) <==> (before.contains(y) || y == x) by {
            if after.contains(y) {
                let i = choose|i: int| 0 <= i < after.len() && after[i] == y;
                if i < before.len() {
                    assert(before[i] == y);
                }
            }
            if before.contains(y) {
                let i = choose|i: int| 0 <= i < before.len() && before[i] == y;
                assert(after[i] == y);
            }
            if y == x {
                assert(after[k as int] == y);
            }
        }
        assert forall|y: u8| seq![x].contains(y) <==> y == x by {
            if seq![x].contains(y) {
                let i = choose|i: int| 0 <= i < 1 && seq![x][i] == y;
            }
            if y == x {
                assert(seq![x][0] == y);
            }
        }
        match found {
            Some(p) => {
                match best {
                    Some(q) => {
                        if p < q {
                            best = Some(p);
                        }
                    },
                    None => {
                        best = Some(p);
                    },
                }
            },
            None => {},
        }
        k = k + 1;
    }
    assert(delimiters@.subrange(0, delimiters@.len() as int) =~= delimiters@);
    proof {
        match best {
            Some(p) => lemma_first_delimiter_at(buffer@, delimiters@, p as int),
            None => lemma_no_delimiter(buffer@, delimiters@),
        }
    }
    best
}

/// Where a read up to a delimiter stands: the bytes gathered so far, and whether it
/// reached its size limit.
pub struct ReadUntil {
    pub result: Vec<u8>,
    pub out_max_size: bool,
}

impl ReadUntil {
    /// A read that has gathered nothing yet.
    pub fn new() -> (r: Self)
        ensures
            r.result@ == Seq::<u8>::empty(),
            !r.out_max_size,
    {
        ReadUntil { result: Vec::new(), out_max_size: false }
    }
}

/// The state of a read up to a delimiter, as a spec value.
pub struct ScanState {
    pub buffer: Seq<u8>,
    pub result: Seq<u8>,
    pub out_max_size: bool,
    pub done: bool,
}

pub open spec fn min_int(a: int, b: int) -> int {
    if a <= b {
        a
    } else {
        b
    }
}

/// One pass of a read up to a delimiter over the buffered bytes `b`, with `r` gathered
/// so far and a limit of `max` bytes. A delimiter in the buffer ends the read: what comes
/// before it joins the result, cut at the limit, and the buffer keeps what follows it. A
/// buffer without a delimiter joins the result up to the limit; the read ends when the
/// limit is reached. An empty buffer changes nothing: more must be read.
pub open spec fn scan_step(b: Seq<u8>, r: Seq<u8>, out: bool, d: Seq<u8>, max: nat) -> ScanState {
    match first_delimiter(b, d) {
        Some(p) => {
            let c = min_int(p, max - r.len());
            let r2 = r + b.take(c);
            ScanState { buffer: b.skip(p + 1), result: r2, out_max_size: r2.len() >= max, done: true }
        },
        None => if b.len() > 0 {
            let c = min_int(b.len() as int, max - r.len());
            let r2 = r + b.take(c);
            ScanState {
                buffer: b.skip(c),
                result: r2,
                out_max_size: r2.len() >= max,
                done: r2.len() >= max,
            }
        } else {
            ScanState { buffer: b, result: r, out_max_size: out, done: false }
        },
    }
}

/// A read up to a delimiter carried on over successive reads from the connection: scan
/// what is buffered; when that does not finish the read, append the next read and scan
/// again; the end of `chunks` is the end of the input.
pub open spec fn read_until_run(
    b: Seq<u8>,
    r: Seq<u8>,
    out: bool,
    chunks: Seq<Seq<u8>>,
    d: Seq<u8>,
    max: nat,
) -> (Seq<u8>, bool)
    decreases chunks.len(),
{
    let s = scan_step(b, r, out, d, max);
    if s.done || chunks.len() == 0 {
        (s.result, s.out_max_size)
    } else {
        read_until_run(s.buffer + chunks[0], s.result, s.out_max_size, chunks.drop_first(), d, max)
    }
}

/// Where a read up to a delimiter stops in `t`: at its first delimiter, or at its end.
pub open spec fn stop_at(t: Seq<u8>, d: Seq<u8>) -> int {
    match first_delimiter(t, d) {
        Some(p) => p,
        None => t.len() as int,
    }
}

proof fn lemma_first_delimiter_append(b: Seq<u8>, x: Seq<u8>, d: Seq<u8>)
    ensures
        first_delimiter(b, d) matches Some(p) ==> first_delimiter(b + x, d) == Some(p),
        first_delimiter(b, d) is None ==> stop_at(b + x, d) == b.len() + stop_at(x, d),
{
    lemma_first_delimiter(b, d);
    lemma_first_delimiter(x, d);
    let t = b + x;
    match first_delimiter(b, d) {
        Some(p) => {
            assert(t[p] == b[p]);
            assert forall|j: int| 0 <= j < p implies !d.contains(#[trigger] t[j]) by {
                assert(t[j] == b[j]);
            }
            lemma_first_delimiter_at(t, d, p);
        },
        None => {
            match first_delimiter(x, d) {
                Some(q) => {
                    assert(t[b.len() + q] == x[q]);
                    assert forall|j: int| 0 <= j < b.len() + q implies !d.contains(#[trigger] t[j]) by {
                        if j < b.len() {
                            assert(t[j] == b[j]);
                        } else {
                            assert(t[j] == x[j - b.len()]);
                        }
                    }
                    lemma_first_delimiter_at(t, d, b.len() + q);
                },
                None => {
                    assert forall|j: int| 0 <= j < t.len() implies !d.contains(#[trigger] t[j]) by {
                        if j < b.len() {
                            assert(t[j] == b[j]);
                        } else {
                            assert(t[j] == x[j - b.len()]);
                        }
                    }
                    lemma_no_delimiter(t, d);
                },
            }
        },
    }
}

proof fn lemma_read_until_run(b: Seq<u8>, r: Seq<u8>, out: bool, chunks: Seq<Seq<u8>>, d: Seq<u8>, max: nat)
    requires
        r.len() <= max,
        forall|i: int| 0 <= i < chunks.len() ==> (#[trigger] chunks[i]).len() > 0,
        out == (r.len() >= max) || (b + chunks.flatten()).len() > 0,
    ensures
        ({
            let t = b + chunks.flatten();
            let res = read_until_run(b, r, out, chunks, d, max);
            &&& res.0 == r + t.take(min_int(stop_at(t, d), max - r.len()))
            &&& res.1 == (res.0.len() >= max)
        }),
    decreases chunks.len(),
{
    let t = b + chunks.flatten();
    let s = scan_step(b, r, out, d, max);
    lemma_first_delimiter(b, d);
    lemma_first_delimiter_append(b, chunks.flatten(), d);
    lemma_first_delimiter(t, d);
    match first_delimiter(b, d) {
        Some(p) => {
            let c = min_int(p, max - r.len());
            assert(t.take(c) =~= b.take(c));
        },
        None => {
            if b.len() > 0 {
                let c = min_int(b.len() as int, max - r.len());
                if c == max - r.len() {
                    assert(t.take(c) =~= b.take(c));
                } else {
                    assert(b.take(c) =~= b);
                    assert(s.buffer =~= Seq::<u8>::empty());
                    if chunks.len() == 0 {
                        assert(chunks.flatten() =~= Seq::<u8>::empty());
                        assert(t =~= b);
                        lemma_no_delimiter(b, d);
                    } else {
                        let rest = chunks.drop_first();
                        assert(chunks.flatten() == chunks[0] + rest.flatten());
                        let t2 = chunks[0] + rest.flatten();
                        assert(s.buffer + chunks[0] =~= chunks[0]);
                        assert forall|i: int| 0 <= i < rest.len() implies (#[trigger] rest[i]).len() > 0 by {
                            assert(rest[i] == chunks[i + 1]);
                        }
                        assert(chunks[0].len() > 0);
                        lemma_read_until_run(chunks[0], r + b, s.out_max_size, rest, d, max);
                        assert(chunks[0] + rest.flatten() == t2);
                        let k = min_int(stop_at(t2, d), max - r.len() - b.len());
                        assert(t.take(b.len() + k) =~= b + t2.take(k));
                        assert(r + b + t2.take(k) =~= r + t.take(b.len() + k));
                    }
                }
            } else {
                assert(t =~= chunks.flatten());
                if chunks.len() == 0 {
                    assert(chunks.flatten() =~= Seq::<u8>::empty());
                } else {
                    let rest = chunks.drop_first();
                    assert(chunks.flatten() == chunks[0] + rest.flatten());
                    assert(b + chunks[0] =~= chunks[0]);
                    assert forall|i: int| 0 <= i < rest.len() implies (#[trigger] rest[i]).len() > 0 by {
                        assert(rest[i] == chunks[i + 1]);
                    }
                    assert(chunks[0].len() > 0);
                    lemma_read_until_run(chunks[0], r, out, rest, d, max);
                    assert(chunks[0] + rest.flatten() =~= t);
                }
            }
        },
    }
}

/// However the input arrives in reads, a read up to a delimiter that starts with nothing
/// gathered gives the bytes before the first delimiter of all that was buffered and read,
/// cut at `max` bytes, and reports the cut exactly when it gathered `max` bytes. (With a
/// limit of zero and no input at all it reports no cut.)
pub proof fn lemma_read_until_chunking(b: Seq<u8>, chunks: Seq<Seq<u8>>, d: Seq<u8>, max: nat)
    requires
        forall|i: int| 0 <= i < chunks.len() ==> (#[trigger] chunks[i]).len() > 0,
        max > 0 || (b + chunks.flatten()).len() > 0,
    ensures
        ({
            let t = b + chunks.flatten();
            let res = read_until_run(b, Seq::empty(), false, chunks, d, max);
            &&& res.0 == t.take(min_int(stop_at(t, d), max as int))
            &&& res.1 == (res.0.len() >= max)
        }),
{
    lemma_read_until_run(b, Seq::empty(), false, chunks, d, max);
    let t = b + chunks.flatten();
    assert(Seq::<u8>::empty() + t.take(min_int(stop_at(t, d), max as int)) =~= t.take(
        min_int(stop_at(t, d), max as int),
    ));
}

/// The bytes of a request that were read from the connection and not yet consumed.
pub struct RequestStream {
    pub read_size: usize,
    pub read_buffer: Vec<u8>,
}

impl RequestStream {
    /// A stream with nothing buffered and nothing read.
    pub fn new() -> (r: Self)
        ensures
            r.read_size == 0,
            r.read_buffer@ == Seq::<u8>::empty(),
    {
        RequestStream { read_size: 0, read_buffer: Vec::with_capacity(BUFFER_SIZE + 1) }
    }

    /// The bytes at which a read up to whitespace stops.
    pub fn whitespace_delimiters() -> (r: Vec<u8>)
        ensures
            r@ == seq![32u8, 9u8, 13u8, 10u8],
    {
        vec![32u8, 9u8, 13u8, 10u8]
    }

    /// One pass of a read up to one of `delimiters` over what is buffered (see
    /// `scan_step`). Returns whether the read is complete; when it is not, the buffer is
    /// empty and the caller reads more from the connection, hands it to `feed`, and calls
    /// this again, or stops at the end of the input.
    pub fn scan_until(&mut self, delimiters: &[u8], max_size: usize, progress: &mut ReadUntil) -> (done: bool)
        requires
            old(progress).result@.len() <= max_size,
        ensures
            ({
                let s = scan_step(
                    old(self).read_buffer@,
                    old(progress).result@,
                    old(progress).out_max_size,
                    delimiters@,
                    max_size as nat,
                );
                &&& final(self).read_buffer@ == s.buffer
                &&& final(progress).result@ == s.result
                &&& final(progress).out_max_size == s.out_max_size
                &&& done == s.done
            }),
            final(self).read_size == old(self).read_size,
            final(progress).result@.len() <= max_size,
            !done ==> final(self).read_buffer@.len() == 0,
    {
        let pos = find_first_delimiter(delimiters, self.read_buffer.as_slice());
        proof {
            lemma_first_delimiter(self.read_buffer@, delimiters@);
        }
        match pos {
            Some(p) => {
                let remaining = max_size - progress.result.len();
                let to_copy = if p < remaining {
                    p
                } else {
                    remaining
                };
                let buffered = self.read_buffer.len();
                assert(p < buffered);
                let rest = self.read_buffer.split_off(p + 1);
                self.read_buffer.truncate(to_copy);
                progress.result.append(&mut self.read_buffer);
                self.read_buffer = rest;
                progress.out_max_size = progress.result.len() >= max_size;
                true
            },
            None => {
                if self.read_buffer.len() > 0 {
                    let remaining = max_size - progress.result.len();
                    let to_copy = if self.read_buffer.len() < remaining {
                        self.read_buffer.len()
                    } else {
                        remaining
                    };
                    let rest = self.read_buffer.split_off(to_copy);
                    progress.result.append(&mut self.read_buffer);
                    self.read_buffer = rest;
                    progress.out_max_size = progress.result.len() >= max_size;
                    progress.out_max_size
                } else {
                    false
                }
            },
        }
    }

    /// Appends bytes read from the connection to the buffer.
    pub fn feed(&mut self, data: &[u8])
        ensures
            final(self).read_buffer@ == old(self).read_buffer@ + data@,
            final(self).read_size == old(self).read_size,
    {
        let mut i: usize = 0;
        let ghost start = self.read_buffer@;
        while i < data.len()
            invariant
                i <= data@.len(),
                self.read_buffer@ == start + data@.take(i as int),
                self.read_size == old(self).read_size,
            decreases data@.len() - i,
        {
            self.read_buffer.push(data[i]);
            i = i + 1;
            assert(data@.take(i as int) =~= data@.take(i - 1).push(data@[i - 1]));
        }
        assert(data@.take(data@.len() as int) =~= data@);
    }

    /// Counts `n` more bytes as read from the connection.
    pub fn record_read(&mut self, n: usize)
        requires
            old(self).read_size + n <= usize::MAX,
        ensures
            final(self).read_size == old(self).read_size + n,
            final(self).read_buffer@ == old(self).read_buffer@,
    {
        self.read_size = self.read_size + n;
    }

    /// Takes up to `max` bytes from the front of the buffer, as a read into a buffer of
    /// `max` bytes first serves what is already buffered.
    pub fn take_buffered(&mut self, max: usize) -> (r: Vec<u8>)
        ensures
            r@ == old(self).read_buffer@.take(min_int(old(self).read_buffer@.len() as int, max as int)),
            final(self).read_buffer@ == old(self).read_buffer@.skip(
                min_int(old(self).read_buffer@.len() as int, max as int),
            ),
            final(self).read_size == old(self).read_size,
    {
        let to_copy = if self.read_buffer.len() < max {
            self.read_buffer.len()
        } else {
            max
        };
        let mut taken = self.read_buffer.split_off(to_copy);
        std::mem::swap(&mut taken, &mut self.read_buffer);
        taken
    }

    /// Takes the whole buffer, leaving it empty.
    pub fn take_all(&mut self) -> (r: Vec<u8>)
        ensures
            r@ == old(self).read_buffer@,
            final(self).read_buffer@ == Seq::<u8>::empty(),
            final(self).read_size == old(self).read_size,
    {
        let mut taken = Vec::new();
        std::mem::swap(&mut taken, &mut self.read_buffer);
        taken
    }
}

} // verus!

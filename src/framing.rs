use vstd::prelude::*;

verus! {

pub const NEWLINE: u8 = 0x0a;

/// The byte stream that carries `lines`, each followed by a newline.
pub open spec fn joined(lines: Seq<Seq<u8>>) -> Seq<u8>
    decreases lines.len(),
{
    if lines.len() == 0 {
        Seq::empty()
    } else {
        joined(lines.drop_last()) + lines.last().push(NEWLINE)
    }
}

/// The contents of each line of `lines`.
pub open spec fn line_views(lines: Seq<Vec<u8>>) -> Seq<Seq<u8>> {
    lines.map_values(|l: Vec<u8>| l@)
}

/// Splits a byte stream that arrives in pieces of any length into
/// newline-terminated lines. Bytes after the last newline wait for the next
/// piece.
pub struct LineFramer {
    pending: Vec<u8>,
}

impl View for LineFramer {
    type V = Seq<u8>;

    /// The bytes received after the last newline.
    closed spec fn view(&self) -> Seq<u8> {
        self.pending@
    }
}

impl LineFramer {
    pub open spec fn wf(&self) -> bool {
        !self@.contains(NEWLINE)
    }

    pub fn new() -> (f: LineFramer)
        ensures
            f.wf(),
            f@ == Seq::<u8>::empty(),
    {
        LineFramer { pending: Vec::new() }
    }

    /// Number of bytes waiting for their newline.
    pub fn pending_len(&self) -> (r: usize)
        ensures
            r == self@.len(),
    {
        self.pending.len()
    }

    /// Takes in the next piece of the stream and returns the lines it
    /// completes, without their newlines, in the order they arrived.
    pub fn push_bytes(&mut self, data: &[u8]) -> (lines: Vec<Vec<u8>>)
        requires
            old(self).wf(),
        ensures
            final(self).wf(),
            forall|k: int| 0 <= k < lines@.len() ==> !(#[trigger] lines@[k])@.contains(NEWLINE),
            joined(line_views(lines@)) + final(self)@ == old(self)@ + data@,
    {
        let mut lines: Vec<Vec<u8>> = Vec::new();
        let mut current: Vec<u8> = Vec::new();
        std::mem::swap(&mut current, &mut self.pending);
        let mut i: usize = 0;
        assert(data@.subrange(0, 0) =~= Seq::<u8>::empty());
        assert(joined(line_views(lines@)) =~= Seq::<u8>::empty());
        while i < data.len()
            invariant
                i <= data.len(),
                !current@.contains(NEWLINE),
                forall|k: int| 0 <= k < lines@.len() ==> !(#[trigger] lines@[k])@.contains(NEWLINE),
                joined(line_views(lines@)) + current@ == old(self)@ + data@.subrange(0, i as int),
            decreases data.len() - i,
        {
            let b = data[i];
            let ghost before = joined(line_views(lines@)) + current@;
            assert(data@.subrange(0, i + 1) =~= data@.subrange(0, i as int).push(b));
            if b == NEWLINE {
                let ghost done = current@;
                let mut line: Vec<u8> = Vec::new();
                std::mem::swap(&mut line, &mut current);
                let ghost old_lines = line_views(lines@);
                lines.push(line);
                assert(line_views(lines@) =~= old_lines.push(done));
                assert(line_views(lines@).drop_last() =~= old_lines);
                assert(joined(line_views(lines@)) =~= joined(old_lines) + done.push(NEWLINE));
                assert(joined(line_views(lines@)) + current@ =~= before.push(b));
            } else {
                let ghost cur_before = current@;
                current.push(b);
                assert(!current@.contains(NEWLINE)) by {
                    assert forall|k: int| 0 <= k < current@.len() implies current@[k] != NEWLINE by {
                        if k < cur_before.len() {
                            assert(current@[k] == cur_before[k]);
                            if current@[k] == NEWLINE {
                                assert(cur_before.contains(NEWLINE));
                            }
                        }
                    }
                }
                assert(joined(line_views(lines@)) + current@ =~= before.push(b));
            }
            i = i + 1;
        }
        assert(data@.subrange(0, data@.len() as int) =~= data@);
        self.pending = current;
        lines
    }
}

/// Empty, or ends with a newline.
pub open spec fn ends_line(s: Seq<u8>) -> bool {
    s.len() == 0 || s.last() == NEWLINE
}

/// No line of `lines` holds a newline.
pub open spec fn newline_free(lines: Seq<Seq<u8>>) -> bool {
    forall|k: int| 0 <= k < lines.len() ==> !(#[trigger] lines[k]).contains(NEWLINE)
}

proof fn lemma_joined_ends_line(lines: Seq<Seq<u8>>)
    ensures
        ends_line(joined(lines)),
        lines.len() > 0 ==> joined(lines).len() > 0,
{
}

/// The bytes after the last newline of a stream are determined by the stream.
proof fn lemma_tail_after_last_newline(x: Seq<u8>, p: Seq<u8>, y: Seq<u8>, q: Seq<u8>)
    requires
        x + p == y + q,
        ends_line(x),
        ends_line(y),
        !p.contains(NEWLINE),
        !q.contains(NEWLINE),
    ensures
        p == q,
        x == y,
{
    let s = x + p;
    let t = y + q;
    assert(s.len() == x.len() + p.len());
    assert(t.len() == y.len() + q.len());
    if p.len() < q.len() {
        assert(x.len() > y.len());
        let i = x.len() - 1;
        assert(s[i] == NEWLINE);
        assert(q[i - y.len()] == s[i]);
        assert(q.contains(NEWLINE));
    } else if q.len() < p.len() {
        assert(y.len() > x.len());
        let i = y.len() - 1;
        assert(t[i] == NEWLINE);
        assert(s[i] == t[i]);
        assert(p[i - x.len()] == s[i]);
        assert(p.contains(NEWLINE));
    }
    assert(x =~= s.subrange(0, x.len() as int));
    assert(y =~= (y + q).subrange(0, y.len() as int));
    assert(p =~= s.subrange(x.len() as int, s.len() as int));
    assert(q =~= (y + q).subrange(y.len() as int, s.len() as int));
}

/// A stream of newline-free lines, followed by a newline-free remainder,
/// can be read back in only one way.
pub proof fn lemma_lines_determined(a: Seq<Seq<u8>>, p: Seq<u8>, b: Seq<Seq<u8>>, q: Seq<u8>)
    requires
        newline_free(a),
        newline_free(b),
        !p.contains(NEWLINE),
        !q.contains(NEWLINE),
        joined(a) + p == joined(b) + q,
    ensures
        a == b,
        p == q,
    decreases a.len(),
{
    lemma_joined_ends_line(a);
    lemma_joined_ends_line(b);
    lemma_tail_after_last_newline(joined(a), p, joined(b), q);
    if a.len() == 0 {
        assert(b.len() == 0);
        assert(a =~= b);
    } else {
        assert(b.len() > 0);
        let a0 = a.drop_last();
        let b0 = b.drop_last();
        assert(newline_free(a0)) by {
            assert forall|k: int| 0 <= k < a0.len() implies !(#[trigger] a0[k]).contains(
                NEWLINE,
            ) by {
                assert(a0[k] == a[k]);
            }
        }
        assert(newline_free(b0)) by {
            assert forall|k: int| 0 <= k < b0.len() implies !(#[trigger] b0[k]).contains(
                NEWLINE,
            ) by {
                assert(b0[k] == b[k]);
            }
        }
        assert(!a.last().contains(NEWLINE)) by {
            assert(a.last() == a[a.len() - 1]);
        }
        assert(!b.last().contains(NEWLINE)) by {
            assert(b.last() == b[b.len() - 1]);
        }
        let ja = joined(a0) + a.last();
        let jb = joined(b0) + b.last();
        assert(joined(a) =~= ja.push(NEWLINE));
        assert(joined(b) =~= jb.push(NEWLINE));
        assert(ja =~= joined(a).drop_last());
        assert(jb =~= joined(b).drop_last());
        lemma_lines_determined(a0, a.last(), b0, b.last());
        assert(a =~= a0.push(a.last()));
        assert(b =~= b0.push(b.last()));
    }
}

/// Framing loses and invents nothing: when what a framer handed out, followed
/// by what it still holds, is the newline-terminated encoding of `lines`, then
/// it handed out exactly `lines` and holds nothing.
pub proof fn lemma_framing_round_trip(lines: Seq<Seq<u8>>, out: Seq<Seq<u8>>, pending: Seq<u8>)
    requires
        newline_free(lines),
        newline_free(out),
        !pending.contains(NEWLINE),
        joined(out) + pending == joined(lines),
    ensures
        out == lines,
        pending == Seq::<u8>::empty(),
{
    assert(joined(lines) + Seq::<u8>::empty() =~= joined(lines));
    lemma_lines_determined(out, pending, lines, Seq::<u8>::empty());
}

/// The encoding of two runs of lines is the encoding of the first followed by
/// that of the second, so the lines of successive pieces may be collected.
pub proof fn lemma_joined_concat(a: Seq<Seq<u8>>, b: Seq<Seq<u8>>)
    ensures
        joined(a + b) == joined(a) + joined(b),
    decreases b.len(),
{
    if b.len() == 0 {
        assert(a + b =~= a);
        assert(joined(a) + joined(b) =~= joined(a));
    } else {
        lemma_joined_concat(a, b.drop_last());
        assert((a + b).drop_last() =~= a + b.drop_last());
        assert((a + b).last() == b.last());
        assert(joined(a + b) =~= joined(a) + joined(b));
    }
}

} // verus!

//! Incremental grapheme segmentation over styled fragments. The pending
//! bytes (the unfinished cluster and the fragment being segmented) sit in a
//! 64-byte inline buffer that spills to a reusable heap string; emitted
//! text is never held, so the whole line is never materialised.

use vstd::prelude::*;
use vstd::utf8::{decode_utf8, encode_utf8, is_char_boundary, valid_utf8};

use crate::fence::compiler_fence_seq_cst;
use crate::text::buffer::{lemma_len_le_byte_len, string_capacity};
use crate::text::unicode::{
    graphemes, lemma_byte_len_encode, lemma_encode_concat, lemma_prefix_boundary, spec_graphemes,
    string_push_str,
};
use crate::wipe::{black_box_ref, string_into_bytes, zero_fill};

verus! {

broadcast use vstd::utf8::group_utf8_lib;

/// Inline pending capacity in bytes. It bounds stack use, never the
/// length of a cluster: longer clusters spill to the heap.
pub const INLINE: usize = 64;

/// `core::str::from_utf8`: the string over `b` when `b` is UTF-8.
#[verifier::external_body]
fn str_from_utf8(b: &[u8]) -> (r: Option<&str>)
    ensures
        match r {
            Some(s) => encode_utf8(s@) == b@,
            None => !valid_utf8(b@),
        },
{
    core::str::from_utf8(b).ok()
}

/// `String::from_utf8`: the string of `b` when `b` is UTF-8.
#[verifier::external_body]
fn string_from_utf8(b: Vec<u8>) -> (r: Option<String>)
    ensures
        match r {
            Some(s) => encode_utf8(s@) == b@,
            None => !valid_utf8(b@),
        },
{
    String::from_utf8(b).ok()
}

/// `Vec::capacity`: the elements allocated, never fewer than held.
#[verifier::external_body]
fn vec_capacity(v: &Vec<u8>) -> (c: usize)
    ensures
        c >= v@.len(),
{
    v.capacity()
}

/// `String::drain` over a prefix: the first `n` bytes, which end on a
/// character boundary, leave the string.
#[verifier::external_body]
fn string_drain_prefix(s: &mut String, n: usize)
    requires
        n <= encode_utf8(old(s)@).len(),
        is_char_boundary(encode_utf8(old(s)@), n as int),
    ensures
        encode_utf8(final(s)@) == encode_utf8(old(s)@).subrange(n as int, encode_utf8(old(s)@).len() as int),
{
    s.drain(..n);
}

/// The pending bytes of an unfinished cluster and what follows it: inline
/// up to [`INLINE`] bytes, on the heap beyond.
#[derive(Debug)]
pub struct ClusterScratch {
    inline: [u8; 64],
    heap: String,
    len: usize,
    peak: usize,
}

impl ClusterScratch {
    /// The pending bytes.
    pub closed spec fn spec_pending(&self) -> Seq<u8> {
        if self.len <= 64 {
            self.inline@.take(self.len as int)
        } else {
            encode_utf8(self.heap@)
        }
    }

    /// The largest pending length since the last reset.
    pub closed spec fn spec_peak(&self) -> usize {
        self.peak
    }

    /// The inline bytes (spec).
    pub closed spec fn spec_inline(&self) -> Seq<u8> {
        self.inline@
    }

    /// The pending bytes are UTF-8, held inline (with an empty heap) up to
    /// the inline capacity and on the heap beyond it; the peak is at least
    /// the pending length.
    pub closed spec fn wf(&self) -> bool {
        &&& self.inline@.len() == 64
        &&& self.len <= 64 ==> self.heap@.len() == 0
        &&& self.len > 64 ==> encode_utf8(self.heap@).len() == self.len
        &&& valid_utf8(self.spec_pending())
        &&& self.peak >= self.len
    }

    /// What well-formedness gives a caller.
    pub proof fn lemma_wf(&self)
        requires
            self.wf(),
        ensures
            valid_utf8(self.spec_pending()),
            self.spec_peak() >= self.spec_pending().len(),
    {
    }

    /// Empty scratch with no heap allocation.
    pub fn new() -> (s: ClusterScratch)
        ensures
            s.wf(),
            s.spec_pending().len() == 0,
            s.spec_peak() == 0,
    {
        let s = ClusterScratch { inline: [0u8; 64], heap: String::new(), len: 0, peak: 0 };
        proof {
            assert(s.spec_pending() =~= Seq::<u8>::empty());
            assert(encode_utf8(Seq::<char>::empty()) =~= Seq::<u8>::empty());
        }
        s
    }

    /// Pending bytes held right now.
    pub fn len(&self) -> (n: usize)
        requires
            self.wf(),
        ensures
            n == self.spec_pending().len(),
    {
        self.len
    }

    /// Whether no cluster is pending.
    pub fn is_empty(&self) -> (b: bool)
        requires
            self.wf(),
        ensures
            b == (self.spec_pending().len() == 0),
    {
        self.len == 0
    }

    /// The largest pending length since the last reset: the largest
    /// unfinished cluster met together with the fragment that followed it.
    pub fn peak(&self) -> (p: usize)
        ensures
            p == self.spec_peak(),
    {
        self.peak
    }

    /// Retained heap capacity (reuse across feeds, not live content). While
    /// the pending bytes are on the heap it holds at least all of them.
    pub fn capacity(&self) -> (c: usize)
        ensures
            self.wf() && self.spec_pending().len() > INLINE ==> c >= self.spec_pending().len(),
    {
        let c = string_capacity(&self.heap);
        proof {
            lemma_byte_len_encode(self.heap@);
        }
        c
    }

    /// The pending text.
    pub fn text(&self) -> (t: &str)
        requires
            self.wf(),
        ensures
            encode_utf8(t@) == self.spec_pending(),
    {
        if self.len > INLINE {
            return self.heap.as_str();
        }
        let bytes = vstd::slice::slice_subrange(self.inline.as_slice(), 0, self.len);
        proof {
            assert(bytes@ =~= self.spec_pending());
        }
        match str_from_utf8(bytes) {
            Some(s) => s,
            None => "",
        }
    }

    /// Overwrite the inline bytes from `from` on with zero.
    fn wipe_inline_from(&mut self, from: usize)
        requires
            old(self).inline@.len() == 64,
            from <= 64,
        ensures
            final(self).inline@.len() == 64,
            final(self).inline@.take(from as int) == old(self).inline@.take(from as int),
            forall|k: int| from <= k < 64 ==> final(self).inline@[k] == 0,
            final(self).heap == old(self).heap,
            final(self).len == old(self).len,
            final(self).peak == old(self).peak,
    {
        let mut i: usize = from;
        while i < INLINE
            invariant
                from <= i <= 64,
                self.inline@.len() == 64,
                self.inline@.take(from as int) == old(self).inline@.take(from as int),
                forall|k: int| from <= k < i ==> self.inline@[k] == 0,
                self.heap == old(self).heap,
                self.len == old(self).len,
                self.peak == old(self).peak,
            decreases 64 - i,
        {
            self.inline.set(i, 0);
            proof {
                assert(self.inline@.take(from as int) =~= old(self).inline@.take(from as int));
            }
            i = i + 1;
        }
        black_box_ref(&self.inline);
        compiler_fence_seq_cst();
    }

    /// Best-effort wipe of the heap string, keeping its allocation for
    /// reuse: the spare bytes beyond the length are overwritten too.
    fn clear_heap(&mut self)
        ensures
            final(self).heap@.len() == 0,
            final(self).inline == old(self).inline,
            final(self).len == old(self).len,
            final(self).peak == old(self).peak,
    {
        let mut taken = String::new();
        core::mem::swap(&mut taken, &mut self.heap);
        let mut bytes = string_into_bytes(taken);
        let cap = vec_capacity(&bytes);
        bytes.resize(cap, 0u8);
        zero_fill(&mut bytes);
        black_box_ref(&bytes);
        compiler_fence_seq_cst();
        bytes.clear();
        self.heap = match string_from_utf8(bytes) {
            Some(s) => s,
            None => String::new(),
        };
        proof {
            lemma_byte_len_encode(self.heap@);
            lemma_len_le_byte_len(self.heap@);
        }
    }

    /// Append a string to the pending bytes, spilling to the
    /// heap past the inline capacity. A length past `usize` is refused.
    pub fn push(&mut self, scalar: &str)
        requires
            old(self).wf(),
        ensures
            final(self).wf(),
            ({
                let add = encode_utf8(scalar@);
                let n = old(self).spec_pending().len() + add.len();
                if n > usize::MAX {
                    final(self).spec_pending() == old(self).spec_pending() && final(self).spec_peak() == old(
                        self,
                    ).spec_peak()
                } else {
                    &&& final(self).spec_pending() == old(self).spec_pending() + add
                    &&& final(self).spec_peak() == (if n > old(self).spec_peak() { n as usize } else {
                        old(self).spec_peak()
                    })
                }
            }),
    {
        let sb = scalar.as_bytes();
        let ghost before = self.spec_pending();
        let end = match self.len.checked_add(sb.len()) {
            Some(e) => e,
            None => return ,
        };
        if end <= INLINE {
            let start = self.len;
            let mut i: usize = 0;
            while i < sb.len()
                invariant
                    start == self.len,
                    start + sb@.len() <= 64,
                    i <= sb@.len(),
                    self.inline@.len() == 64,
                    self.inline@.take(start as int) == before,
                    forall|k: int| 0 <= k < i ==> self.inline@[start + k] == sb@[k],
                    self.heap == old(self).heap,
                    self.peak == old(self).peak,
                decreases sb@.len() - i,
            {
                self.inline.set(start + i, sb[i]);
                proof {
                    assert(self.inline@.take(start as int) =~= before);
                }
                i = i + 1;
            }
            proof {
                assert(self.inline@.take(end as int) =~= before + sb@);
            }
        } else {
            if self.len <= INLINE {
                let cur = vstd::slice::slice_subrange(self.inline.as_slice(), 0, self.len);
                proof {
                    assert(cur@ =~= before);
                }
                match str_from_utf8(cur) {
                    Some(s) => {
                        string_push_str(&mut self.heap, s);
                        proof {
                            assert(self.heap@ =~= s@);
                        }
                    },
                    None => {},
                }
                self.wipe_inline_from(0);
            }
            proof {
                lemma_encode_concat(self.heap@, scalar@);
            }
            string_push_str(&mut self.heap, scalar);
        }
        self.len = end;
        if end > self.peak {
            self.peak = end;
        }
    }

    /// Drop an emitted prefix of `bytes` bytes, which ends on a character
    /// boundary, keeping the rest; a rest that fits inline returns there
    /// and the heap is wiped, keeping only its capacity.
    pub fn discard_prefix(&mut self, bytes: usize)
        requires
            old(self).wf(),
            bytes <= old(self).spec_pending().len(),
            is_char_boundary(old(self).spec_pending(), bytes as int),
        ensures
            final(self).wf(),
            final(self).spec_pending() == old(self).spec_pending().subrange(
                bytes as int,
                old(self).spec_pending().len() as int,
            ),
            final(self).spec_peak() == old(self).spec_peak(),
    {
        let ghost before = self.spec_pending();
        let rest = self.len - bytes;
        proof {
            vstd::utf8::valid_utf8_split(before, bytes as int);
        }
        if self.len > INLINE {
            if rest <= INLINE {
                let ghost heap_bytes = encode_utf8(self.heap@);
                let mut k: usize = 0;
                while k < rest
                    invariant
                        k <= rest,
                        rest <= 64,
                        rest == self.len - bytes,
                        bytes <= self.len,
                        self.len > 64,
                        self.inline@.len() == 64,
                        encode_utf8(self.heap@) == heap_bytes,
                        heap_bytes.len() == self.len,
                        forall|j: int| 0 <= j < k ==> self.inline@[j] == heap_bytes[bytes + j],
                        self.peak == old(self).peak,
                    decreases rest - k,
                {
                    let b = self.heap.as_str().as_bytes()[bytes + k];
                    self.inline.set(k, b);
                    k = k + 1;
                }
                self.clear_heap();
                self.len = rest;
                proof {
                    assert(self.spec_pending() =~= before.subrange(bytes as int, before.len() as int));
                }
            } else {
                string_drain_prefix(&mut self.heap, bytes);
                self.len = rest;
                proof {
                    assert(self.spec_pending() =~= before.subrange(bytes as int, before.len() as int));
                }
            }
        } else {
            let len = self.len;
            let mut k: usize = 0;
            while k < rest
                invariant
                    k <= rest,
                    rest == len - bytes,
                    bytes <= len,
                    len <= 64,
                    len == self.len,
                    self.inline@.len() == 64,
                    forall|j: int| 0 <= j < k ==> self.inline@[j] == before[bytes + j],
                    forall|j: int| k <= j < 64 ==> self.inline@[j] == old(self).inline@[j],
                    before == old(self).inline@.take(len as int),
                    self.heap == old(self).heap,
                    self.peak == old(self).peak,
                decreases rest - k,
            {
                let b = self.inline[bytes + k];
                self.inline.set(k, b);
                k = k + 1;
            }
            self.wipe_inline_from(rest);
            self.len = rest;
            proof {
                assert(self.spec_pending() =~= before.subrange(bytes as int, before.len() as int));
            }
        }
    }

    /// Wipe the content, keeping the heap capacity for warm reuse.
    pub fn clear(&mut self)
        requires
            old(self).wf(),
        ensures
            final(self).wf(),
            final(self).spec_pending().len() == 0,
            final(self).spec_peak() == old(self).spec_peak(),
            forall|k: int| 0 <= k < 64 ==> final(self).spec_inline()[k] == 0,
    {
        self.wipe_inline_from(0);
        self.clear_heap();
        self.len = 0;
        proof {
            assert(self.spec_pending() =~= Seq::<u8>::empty());
            assert(encode_utf8(Seq::<char>::empty()) =~= Seq::<u8>::empty());
        }
    }

    /// Start a new feed: wipe the content and reset the peak.
    pub fn reset(&mut self)
        requires
            old(self).wf(),
        ensures
            final(self).wf(),
            final(self).spec_pending().len() == 0,
            final(self).spec_peak() == 0,
    {
        self.clear();
        self.peak = 0;
    }
}

/// The byte offset, in a text segmented into `gs`, at which its `i`-th
/// cluster starts.
pub open spec fn cluster_start(gs: Seq<Seq<char>>, i: int) -> int {
    encode_utf8(gs.take(i).flatten()).len() as int
}

/// The first `n` clusters of `gs`, each as its start byte, its end byte,
/// and the owner of its start byte among the per-byte `owners`.
pub open spec fn cluster_spans(gs: Seq<Seq<char>>, owners: Seq<usize>, n: int) -> Seq<(usize, usize, usize)> {
    Seq::new(
        n as nat,
        |i: int| (cluster_start(gs, i) as usize, cluster_start(gs, i + 1) as usize, owners[cluster_start(gs, i)]),
    )
}

/// A flattened sequence splits into the flattening of a prefix and of the
/// rest.
pub proof fn lemma_flatten_split(gs: Seq<Seq<char>>, k: int)
    requires
        0 <= k <= gs.len(),
    ensures
        gs.flatten() == gs.take(k).flatten() + gs.skip(k).flatten(),
    decreases gs.len(),
{
    if k == gs.len() {
        assert(gs.take(k) =~= gs);
        assert(gs.skip(k) =~= Seq::<Seq<char>>::empty());
        assert(gs.take(k).flatten() + gs.skip(k).flatten() =~= gs.flatten());
    } else {
        let dl = gs.drop_last();
        lemma_flatten_split(dl, k);
        assert(gs =~= dl.push(gs.last()));
        dl.lemma_flatten_push(gs.last());
        assert(gs.skip(k) =~= dl.skip(k).push(gs.last()));
        dl.skip(k).lemma_flatten_push(gs.last());
        assert(gs.take(k) =~= dl.take(k));
        assert(gs.flatten() =~= gs.take(k).flatten() + gs.skip(k).flatten());
    }
}

/// Incremental grapheme segmentation over a sequence of fragments, each
/// pushed with the tag of its owner (a style, say). The feed buffers the
/// text not yet emitted; a push segments the buffered text followed by the
/// fragment and emits every cluster but the last, which may still grow;
/// [`finish`](ClusterFeed::finish) emits the rest. Each cluster carries
/// the tag of the fragment holding its first byte, so a cluster that spans
/// fragments takes the style of the one it starts in. Once the consumer
/// [`stop`](ClusterFeed::stop)s it, the feed accepts fragments without
/// holding them.
#[derive(Debug)]
pub struct ClusterFeed {
    scratch: ClusterScratch,
    owners: Vec<usize>,
    done: bool,
}

impl ClusterFeed {
    /// The buffered text, not yet emitted.
    pub closed spec fn spec_text(&self) -> Seq<char> {
        decode_utf8(self.scratch.spec_pending())
    }

    /// The owner tag of each buffered byte.
    pub closed spec fn spec_owners(&self) -> Seq<usize> {
        self.owners@
    }

    /// Whether the consumer has stopped the feed.
    pub closed spec fn spec_done(&self) -> bool {
        self.done
    }

    /// The scratch holds the buffered text and each buffered byte has an
    /// owner.
    pub closed spec fn wf(&self) -> bool {
        &&& self.scratch.wf()
        &&& self.owners@.len() == self.scratch.spec_pending().len()
    }

    /// The buffered text's bytes are the scratch's pending bytes.
    proof fn lemma_text(&self)
        requires
            self.wf(),
        ensures
            encode_utf8(self.spec_text()) == self.scratch.spec_pending(),
            self.spec_owners().len() == encode_utf8(self.spec_text()).len(),
    {
        self.scratch.lemma_wf();
        vstd::utf8::decode_utf8_encode_utf8(self.scratch.spec_pending());
    }

    /// A feed over `scratch`, whose content is wiped and whose peak is
    /// reset; its heap capacity stays for reuse.
    pub fn new(scratch: ClusterScratch) -> (f: ClusterFeed)
        requires
            scratch.wf(),
        ensures
            f.wf(),
            f.spec_text().len() == 0,
            f.spec_owners().len() == 0,
            !f.spec_done(),
    {
        let mut scratch = scratch;
        scratch.reset();
        let f = ClusterFeed { scratch, owners: Vec::new(), done: false };
        proof {
            f.lemma_text();
        }
        f
    }

    /// The buffered text, not yet emitted.
    pub fn pending(&self) -> (t: &str)
        requires
            self.wf(),
        ensures
            t@ == self.spec_text(),
    {
        let t = self.scratch.text();
        proof {
            vstd::utf8::encode_utf8_decode_utf8(t@);
        }
        t
    }

    /// Whether the consumer has stopped the feed.
    pub fn is_done(&self) -> (b: bool)
        ensures
            b == self.spec_done(),
    {
        self.done
    }

    /// Push one fragment owned by `owner`. The buffered text followed by
    /// the fragment is segmented; every cluster but the last is emitted as
    /// (start byte, end byte, owner of the start byte), with offsets into
    /// that text, and the last stays buffered. A stopped feed emits nothing
    /// and buffers nothing.
    pub fn push(&mut self, fragment: &str, owner: usize) -> (out: Vec<(usize, usize, usize)>)
        requires
            old(self).wf(),
            encode_utf8(old(self).spec_text()).len() + encode_utf8(fragment@).len() <= usize::MAX,
        ensures
            final(self).wf(),
            final(self).spec_done() == old(self).spec_done(),
            old(self).spec_done() ==> {
                &&& out@.len() == 0
                &&& final(self).spec_text() == old(self).spec_text()
                &&& final(self).spec_owners() == old(self).spec_owners()
            },
            !old(self).spec_done() ==> ({
                let text = old(self).spec_text() + fragment@;
                let owners = old(self).spec_owners() + Seq::new(encode_utf8(fragment@).len(), |k: int| owner);
                let gs = spec_graphemes(text);
                let n = if gs.len() > 0 { gs.len() - 1 } else { 0 };
                &&& gs.flatten() == text
                &&& gs.take(n).flatten() + final(self).spec_text() == text
                &&& out@ == cluster_spans(gs, owners, n)
                &&& final(self).spec_text() == gs.skip(n).flatten()
                &&& final(self).spec_owners() == owners.skip(cluster_start(gs, n))
            }),
    {
        if self.done {
            return Vec::new();
        }
        proof {
            self.lemma_text();
        }
        let ghost old_text = self.spec_text();
        let ghost old_owners = self.owners@;
        let fb = fragment.as_bytes().len();
        let mut k: usize = 0;
        while k < fb
            invariant
                k <= fb,
                fb == encode_utf8(fragment@).len(),
                self.scratch == old(self).scratch,
                self.done == old(self).done,
                self.owners@ == old_owners + Seq::new(k as nat, |j: int| owner),
            decreases fb - k,
        {
            self.owners.push(owner);
            proof {
                assert(self.owners@ =~= old_owners + Seq::new(k as nat + 1, |j: int| owner));
            }
            k = k + 1;
        }
        self.scratch.push(fragment);
        proof {
            lemma_encode_concat(old_text, fragment@);
            vstd::utf8::encode_utf8_decode_utf8(old_text + fragment@);
            assert(self.spec_text() == old_text + fragment@);
            assert(self.owners@ =~= old_owners + Seq::new(encode_utf8(fragment@).len(), |j: int| owner));
        }
        let ghost gs = spec_graphemes(self.spec_text());
        let out = self.segment(true);
        proof {
            let n = if gs.len() > 0 { gs.len() - 1 } else { 0 };
            lemma_flatten_split(gs, n);
        }
        out
    }

    /// Emit every cluster of the buffered text, the last one included, and
    /// empty the buffer. A stopped feed emits nothing.
    pub fn finish(&mut self) -> (out: Vec<(usize, usize, usize)>)
        requires
            old(self).wf(),
        ensures
            final(self).wf(),
            final(self).spec_done() == old(self).spec_done(),
            final(self).spec_text().len() == 0,
            final(self).spec_owners().len() == 0,
            old(self).spec_done() ==> out@.len() == 0,
            !old(self).spec_done() ==> ({
                let gs = spec_graphemes(old(self).spec_text());
                &&& gs.flatten() == old(self).spec_text()
                &&& out@ == cluster_spans(gs, old(self).spec_owners(), gs.len() as int)
            }),
    {
        if self.done {
            self.scratch.clear();
            self.owners = Vec::new();
            proof {
                self.lemma_text();
            }
            return Vec::new();
        }
        proof {
            self.lemma_text();
        }
        let ghost gs = spec_graphemes(self.spec_text());
        let ghost owners = self.owners@;
        let out = self.segment(false);
        proof {
            lemma_flatten_split(gs, gs.len() as int);
            assert(gs.skip(gs.len() as int) =~= Seq::<Seq<char>>::empty());
            assert(self.spec_text() =~= Seq::<char>::empty());
            self.lemma_text();
        }
        out
    }

    /// Stop the feed: the consumer admits no more clusters. The buffer is
    /// wiped and later fragments are accepted without being held.
    pub fn stop(&mut self)
        requires
            old(self).wf(),
        ensures
            final(self).wf(),
            final(self).spec_done(),
            final(self).spec_text().len() == 0,
            final(self).spec_owners().len() == 0,
    {
        self.scratch.clear();
        self.owners = Vec::new();
        self.done = true;
        proof {
            self.lemma_text();
        }
    }

    /// Give the scratch back for reuse by a later feed.
    pub fn into_scratch(self) -> (s: ClusterScratch)
        requires
            self.wf(),
        ensures
            s.wf(),
    {
        self.scratch
    }

    /// Emit the clusters of the buffered text, all of them or all but the
    /// last, and keep the rest buffered.
    fn segment(&mut self, keep_last: bool) -> (out: Vec<(usize, usize, usize)>)
        requires
            old(self).wf(),
        ensures
            final(self).wf(),
            final(self).spec_done() == old(self).spec_done(),
            ({
                let gs = spec_graphemes(old(self).spec_text());
                let n = if keep_last && gs.len() > 0 { gs.len() - 1 } else { gs.len() as int };
                &&& gs.flatten() == old(self).spec_text()
                &&& out@ == cluster_spans(gs, old(self).spec_owners(), n)
                &&& final(self).spec_text() == gs.skip(n).flatten()
                &&& final(self).spec_owners() == old(self).spec_owners().skip(cluster_start(gs, n))
            }),
    {
        proof {
            self.lemma_text();
        }
        let ghost old_owners = self.owners@;
        let ghost text = self.spec_text();
        let t = self.scratch.text();
        proof {
            vstd::utf8::encode_utf8_decode_utf8(t@);
            assert(t@ == text);
        }
        let gs = graphemes(t);
        let ghost gv = gs@.map_values(|g: &str| g@);
        let n = if keep_last && gs.len() > 0 { gs.len() - 1 } else { gs.len() };
        let total = self.owners.len();
        let mut out: Vec<(usize, usize, usize)> = Vec::new();
        let mut off: usize = 0;
        let mut i: usize = 0;
        while i < n
            invariant
                n <= gs@.len(),
                gv == gs@.map_values(|g: &str| g@),
                gv == spec_graphemes(text),
                gv.flatten() == text,
                forall|j: int| 0 <= j < gs@.len() ==> gs@[j]@.len() > 0,
                self.owners@ == old_owners,
                old_owners.len() == encode_utf8(text).len(),
                total == old_owners.len(),
                i <= n,
                off == cluster_start(gv, i as int),
                out@ == cluster_spans(gv, old_owners, i as int),
            decreases n - i,
        {
            let g = gs[i];
            let l = g.as_bytes().len();
            proof {
                assert(gv[i as int] == g@);
                gv.take(i as int).lemma_flatten_push(gv[i as int]);
                assert(gv.take(i as int + 1) =~= gv.take(i as int).push(gv[i as int]));
                lemma_encode_concat(gv.take(i as int).flatten(), gv[i as int]);
                lemma_flatten_split(gv, i as int + 1);
                lemma_encode_concat(gv.take(i as int + 1).flatten(), gv.skip(i as int + 1).flatten());
                lemma_byte_len_encode(g@);
                crate::text::buffer::lemma_len_le_byte_len(g@);
                assert(l == encode_utf8(g@).len());
                assert(encode_utf8(gv.take(i as int + 1).flatten()) == encode_utf8(gv.take(i as int).flatten())
                    + encode_utf8(gv[i as int]));
                assert(encode_utf8(text) == encode_utf8(gv.take(i as int + 1).flatten()) + encode_utf8(
                    gv.skip(i as int + 1).flatten(),
                ));
                assert(off + l <= old_owners.len());
            }
            let end = off + l;
            out.push((off, end, self.owners[off]));
            proof {
                assert(out@ =~= cluster_spans(gv, old_owners, i as int + 1));
            }
            off = end;
            i = i + 1;
        }
        proof {
            lemma_flatten_split(gv, n as int);
            lemma_encode_concat(gv.take(n as int).flatten(), gv.skip(n as int).flatten());
            lemma_prefix_boundary(text, gv.take(n as int).flatten().len() as int);
            assert(text.take(gv.take(n as int).flatten().len() as int) =~= gv.take(n as int).flatten());
        }
        self.scratch.discard_prefix(off);
        let mut rest: Vec<usize> = Vec::new();
        let mut k: usize = off;
        while k < self.owners.len()
            invariant
                off <= k <= self.owners@.len(),
                self.owners@ == old_owners,
                rest@ == old_owners.subrange(off as int, k as int),
            decreases self.owners@.len() - k,
        {
            rest.push(self.owners[k]);
            proof {
                assert(rest@ =~= old_owners.subrange(off as int, k as int + 1));
            }
            k = k + 1;
        }
        self.owners = rest;
        proof {
            assert(self.owners@ =~= old_owners.skip(off as int));
            assert(self.scratch.spec_pending() =~= encode_utf8(gv.skip(n as int).flatten()));
            vstd::utf8::encode_utf8_decode_utf8(gv.skip(n as int).flatten());
        }
        out
    }
}

} // verus!

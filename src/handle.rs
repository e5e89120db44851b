use vstd::prelude::*;

use crate::region::{joined, lemma_joined_step, MemRegion, RegionView};

verus! {

/// The state of a handle: the addresses it spans, how many bytes a write may
/// set, the saved argument strings, the boundary offset of a composed span, and
/// the current contents of the span `[begin, end]`.
pub struct HandleView {
    pub begin: nat,
    pub end: nat,
    pub max_len: nat,
    pub saved: Seq<Seq<u8>>,
    pub boundary: Option<nat>,
    pub span: Seq<u8>,
}

impl HandleView {
    /// The span covers the addresses `[begin, end]` and ends with a NUL that no
    /// write reaches; the saved strings are the whole span (argv alone) or the
    /// part before the boundary (argv + environ), which lies within `max_len`.
    pub open spec fn wf(self) -> bool {
        &&& self.span.len() >= 1
        &&& self.max_len < self.span.len()
        &&& self.span.last() == 0
        &&& self.begin <= self.end
        &&& self.end + 1 == self.begin + self.span.len()
        &&& match self.boundary {
            None => joined(self.saved).len() == self.span.len() && self.max_len + 1
                == self.span.len(),
            Some(k) => k == joined(self.saved).len() && 1 <= k <= self.max_len,
        }
    }

    /// The span after `chars` is copied in: its first `max_len` bytes come from
    /// `chars`, zero past its end; the rest of the span is left as it was.
    pub open spec fn written(self, chars: Seq<u8>) -> Seq<u8> {
        Seq::new(
            self.span.len(),
            |i: int|
                if i < self.max_len {
                    if i < chars.len() {
                        chars[i]
                    } else {
                        0u8
                    }
                } else {
                    self.span[i]
                },
        )
    }

    /// Writing `chars` would leave a NUL in the byte before the boundary of a
    /// composed span, although `chars` runs past the boundary.
    pub open spec fn boundary_fires(self, chars: Seq<u8>) -> bool {
        match self.boundary {
            Some(k) => chars.len() > k && self.written(chars)[k - 1] == 0,
            None => false,
        }
    }

    /// The handle after `set(chars)`.
    pub open spec fn set_view(self, chars: Seq<u8>) -> HandleView {
        let w = self.written(chars);
        HandleView {
            span: if self.boundary_fires(chars) {
                w.update(self.boundary.unwrap() - 1, 1u8)
            } else {
                w
            },
            ..self
        }
    }

    /// The handle after `revert()`: the saved strings written back.
    pub open spec fn revert_view(self) -> HandleView {
        self.set_view(joined(self.saved))
    }
}

/// The handle after the writes `writes`, in order.
pub open spec fn apply_sets(h: HandleView, writes: Seq<Seq<u8>>) -> HandleView
    decreases writes.len(),
{
    if writes.len() == 0 {
        h
    } else {
        apply_sets(h, writes.drop_last()).set_view(writes.last())
    }
}

/// The environment region is joined to the argument region: it starts right
/// after the argument region's last terminator, and the argument strings fit
/// within `os_limit`.
pub open spec fn joins(argv: RegionView, env: RegionView, os_limit: nat) -> bool {
    &&& env.begin == argv.end + 1
    &&& argv.byte_len <= os_limit
}

/// The handle on the argument region alone.
pub open spec fn argv_only(argv: RegionView) -> HandleView {
    HandleView {
        begin: argv.begin,
        end: argv.end,
        max_len: (argv.byte_len - 1) as nat,
        saved: argv.saved,
        boundary: None,
        span: joined(argv.saved),
    }
}

/// The handle on the argument region and the environment region joined to it.
pub open spec fn argv_and_environ(argv: RegionView, env: RegionView, os_limit: nat) -> HandleView {
    HandleView {
        begin: argv.begin,
        end: env.end,
        max_len: if argv.byte_len + env.byte_len - 1 <= os_limit {
            (argv.byte_len + env.byte_len - 1) as nat
        } else {
            os_limit
        },
        saved: argv.saved,
        boundary: Some(argv.byte_len),
        span: joined(argv.saved) + joined(env.saved),
    }
}

/// The handle composed of the argument region and, where given and joined to
/// it, the environment region that follows it.
pub open spec fn compose(argv: RegionView, environ: Option<RegionView>, os_limit: nat) -> HandleView {
    match environ {
        Some(env) => if joins(argv, env, os_limit) {
            argv_and_environ(argv, env, os_limit)
        } else {
            argv_only(argv)
        },
        None => argv_only(argv),
    }
}

proof fn lemma_joined_ends_in_nul(strs: Seq<Seq<u8>>)
    requires
        strs.len() > 0,
    ensures
        joined(strs).len() >= 1,
        joined(strs).last() == 0,
{
}

/// Appends `s` and a NUL to `out`.
fn push_string(out: &mut Vec<u8>, s: &Vec<u8>)
    ensures
        final(out)@ == old(out)@ + s@ + seq![0u8],
{
    let mut i: usize = 0;
    while i < s.len()
        invariant
            i <= s@.len(),
            out@ == old(out)@ + s@.take(i as int),
        decreases s@.len() - i,
    {
        out.push(s[i]);
        i = i + 1;
        assert(out@ =~= old(out)@ + s@.take(i as int));
    }
    out.push(0u8);
    assert(s@.take(s@.len() as int) =~= s@);
}

/// Appends the strings of `strs` to `out`, each followed by a NUL.
fn push_joined(out: &mut Vec<u8>, strs: &Vec<Vec<u8>>)
    ensures
        final(out)@ == old(out)@ + joined(strs@.map_values(|v: Vec<u8>| v@)),
{
    let ghost all = strs@.map_values(|v: Vec<u8>| v@);
    let mut i: usize = 0;
    while i < strs.len()
        invariant
            i <= strs@.len(),
            all == strs@.map_values(|v: Vec<u8>| v@),
            out@ == old(out)@ + joined(all.take(i as int)),
        decreases strs@.len() - i,
    {
        proof {
            lemma_joined_step(all, i as int);
        }
        push_string(out, &strs[i]);
        i = i + 1;
        assert(out@ =~= old(out)@ + joined(all.take(i as int)));
    }
    assert(all.take(i as int) =~= all);
}

proof fn lemma_set_keeps_wf(h: HandleView, chars: Seq<u8>)
    requires
        h.wf(),
    ensures
        h.set_view(chars).wf(),
{
    let w = h.written(chars);
    let last = h.span.len() - 1;
    assert(w[last] == h.span[last]);
}

proof fn lemma_apply_sets_keeps_wf(h: HandleView, writes: Seq<Seq<u8>>)
    requires
        h.wf(),
    ensures
        apply_sets(h, writes).wf(),
        apply_sets(h, writes).saved == h.saved,
        apply_sets(h, writes).max_len == h.max_len,
        apply_sets(h, writes).boundary == h.boundary,
        apply_sets(h, writes).span.len() == h.span.len(),
    decreases writes.len(),
{
    if writes.len() > 0 {
        lemma_apply_sets_keeps_wf(h, writes.drop_last());
        lemma_set_keeps_wf(apply_sets(h, writes.drop_last()), writes.last());
    }
}

/// After any sequence of writes, `revert` puts back byte for byte the argument
/// strings that the scan found: the whole span when it holds the arguments
/// alone, the part before the boundary when it is composed.
pub proof fn lemma_revert_restores(h: HandleView, writes: Seq<Seq<u8>>)
    requires
        h.wf(),
    ensures
        apply_sets(h, writes).revert_view().span.take(joined(h.saved).len() as int) == joined(
            h.saved,
        ),
        h.boundary is None ==> apply_sets(h, writes).revert_view().span == joined(h.saved),
{
    lemma_apply_sets_keeps_wf(h, writes);
    let a = apply_sets(h, writes);
    let j = joined(h.saved);
    let r = a.revert_view();
    assert(!a.boundary_fires(j));
    if h.saved.len() > 0 {
        lemma_joined_ends_in_nul(h.saved);
    }
    assert(r.span.take(j.len() as int) =~= j);
    if h.boundary is None {
        assert(r.span =~= j);
    }
}

/// Reverting twice leaves the same contents as reverting once.
pub proof fn lemma_revert_idempotent(h: HandleView)
    requires
        h.wf(),
    ensures
        h.revert_view().revert_view() == h.revert_view(),
{
    let j = joined(h.saved);
    let r1 = h.revert_view();
    lemma_set_keeps_wf(h, j);
    assert(!h.boundary_fires(j));
    assert(!r1.boundary_fires(j));
    assert(r1.revert_view().span =~= r1.span);
}

/// A handle on the argument span (and, where composed, the environment span that
/// follows it) of the running process. It keeps a mirror of those bytes, which
/// its writes change; the caller copies the mirror into the real memory.
#[derive(Debug)]
pub struct KillMyArgv {
    begin_addr: usize,
    end_addr: usize,
    max_len: usize,
    saved_argv: Vec<Vec<u8>>,
    nonul_byte: Option<usize>,
    span: Vec<u8>,
}

impl View for KillMyArgv {
    type V = HandleView;

    closed spec fn view(&self) -> HandleView {
        HandleView {
            begin: self.begin_addr as nat,
            end: self.end_addr as nat,
            max_len: self.max_len as nat,
            saved: self.saved_argv@.map_values(|v: Vec<u8>| v@),
            boundary: match self.nonul_byte {
                Some(k) => Some(k as nat),
                None => None,
            },
            span: self.span@,
        }
    }
}

impl KillMyArgv {
    /// Composes a handle from the argument region and, where given, the
    /// environment region. The environment is taken in only where it starts
    /// right after the argument strings and these fit within `os_limit`;
    /// otherwise the handle covers the argument region alone. Alone, the
    /// argument region may be rewritten but for its last NUL; composed, up to
    /// `os_limit` bytes of both may be, and the offset just past the argument
    /// strings is recorded as the boundary.
    pub fn new(argv: MemRegion, environ: Option<MemRegion>, os_limit: usize) -> (r: KillMyArgv)
        requires
            argv@.wf(),
            match environ {
                Some(e) => e@.wf() && argv@.byte_len + e@.byte_len <= usize::MAX,
                None => true,
            },
        ensures
            r@.wf(),
            match environ {
                Some(e) => r@ == compose(argv@, Some(e@), os_limit as nat),
                None => r@ == compose(argv@, None, os_limit as nat),
            },
    {
        proof {
            lemma_joined_ends_in_nul(argv@.saved);
        }
        let mut span: Vec<u8> = Vec::new();
        push_joined(&mut span, argv.saved());
        let argv_len = argv.byte_len();
        match environ {
            Some(env) if env.begin_addr() > argv.end_addr() && env.begin_addr() - argv.end_addr()
                == 1 && argv_len <= os_limit => {
                proof {
                    lemma_joined_ends_in_nul(env@.saved);
                }
                push_joined(&mut span, env.saved());
                let total = argv_len + env.byte_len() - 1;
                let max_len = if total <= os_limit {
                    total
                } else {
                    os_limit
                };
                let r = KillMyArgv {
                    begin_addr: argv.begin_addr(),
                    end_addr: env.end_addr(),
                    max_len,
                    saved_argv: argv.saved().clone(),
                    nonul_byte: Some(argv_len),
                    span,
                };
                proof {
                    assert(r@.saved =~= argv@.saved);
                    assert(r@.span.last() == joined(env@.saved).last());
                }
                r
            },
            _ => {
                let r = KillMyArgv {
                    begin_addr: argv.begin_addr(),
                    end_addr: argv.end_addr(),
                    max_len: argv_len - 1,
                    saved_argv: argv.saved().clone(),
                    nonul_byte: None,
                    span,
                };
                proof {
                    assert(r@.saved =~= argv@.saved);
                    assert(r@.span =~= joined(argv@.saved));
                }
                r
            },
        }
    }

    /// The start address and the end address of the span.
    pub fn argv_addrs(&self) -> (r: (usize, usize))
        ensures
            r.0 == self@.begin,
            r.1 == self@.end,
    {
        (self.begin_addr, self.end_addr)
    }

    /// The largest number of bytes that a write sets.
    pub fn max_len(&self) -> (r: usize)
        ensures
            r == self@.max_len,
    {
        self.max_len
    }

    /// The boundary offset of a composed span: the length of the argument
    /// strings with their terminators. The byte before it is kept non-NUL when a
    /// write runs past it.
    pub fn nonul_byte(&self) -> (r: Option<usize>)
        ensures
            match r {
                Some(k) => self@.boundary == Some(k as nat),
                None => self@.boundary is None,
            },
    {
        self.nonul_byte
    }

    /// The current contents of the span `[begin, end]`, to be copied into memory.
    pub fn span(&self) -> (r: &Vec<u8>)
        ensures
            r@ == self@.span,
    {
        &self.span
    }

    /// Writes `chars` at the start of the span: at most `max_len` bytes, the
    /// rest up to `max_len` zeroed. Where the span is composed and `chars` runs
    /// past the boundary, a NUL left in the byte before the boundary becomes 1.
    pub fn set(&mut self, chars: &[u8])
        requires
            old(self)@.wf(),
        ensures
            final(self)@ == old(self)@.set_view(chars@),
            final(self)@.wf(),
            chars@.len() < old(self)@.max_len ==> forall|i: int|
                chars@.len() <= i < old(self)@.max_len ==> #[trigger] final(self)@.span[i] == 0,
            chars@.len() >= old(self)@.max_len && !old(self)@.boundary_fires(chars@)
                ==> final(self)@.span.take(old(self)@.max_len as int) == chars@.take(
                old(self)@.max_len as int,
            ),
            forall|i: int|
                old(self)@.max_len <= i < old(self)@.span.len() ==> #[trigger] final(self)@.span[i]
                    == old(self)@.span[i],
            old(self)@.boundary_fires(chars@) ==> final(self)@.span[old(self)@.boundary.unwrap()
                - 1] == 1,
            final(self)@.span.last() == 0,
    {
        let ghost h0 = self@;
        let n = chars.len();
        let max_len = self.max_len;
        let mut i: usize = 0;
        while i < max_len
            invariant
                h0.wf(),
                i <= max_len,
                max_len == h0.max_len,
                n == chars@.len(),
                self@ == (HandleView { span: self.span@, ..h0 }),
                self.span@.len() == h0.span.len(),
                forall|j: int| 0 <= j < i ==> #[trigger] self.span@[j] == h0.written(chars@)[j],
                forall|j: int| i <= j < h0.span.len() ==> #[trigger] self.span@[j] == h0.span[j],
            decreases max_len - i,
        {
            let b: u8 = if i < n {
                chars[i]
            } else {
                0u8
            };
            self.span.set(i, b);
            i = i + 1;
        }
        assert(self.span@ =~= h0.written(chars@));
        match self.nonul_byte {
            Some(k) => {
                if n > k && self.span[k - 1] == 0 {
                    self.span.set(k - 1, 1u8);
                }
            },
            None => {},
        }
        assert(self@ =~= h0.set_view(chars@));
        assert(chars@.len() >= h0.max_len && !h0.boundary_fires(chars@) ==> self@.span.take(
            h0.max_len as int,
        ) =~= chars@.take(h0.max_len as int));
    }

    /// Writes the saved argument strings back, each with its terminator.
    pub fn revert(&mut self)
        requires
            old(self)@.wf(),
        ensures
            final(self)@ == old(self)@.revert_view(),
            final(self)@.wf(),
    {
        let mut backup: Vec<u8> = Vec::new();
        push_joined(&mut backup, &self.saved_argv);
        assert(backup@ =~= joined(self@.saved));
        self.set(backup.as_slice());
    }
}

} // verus!

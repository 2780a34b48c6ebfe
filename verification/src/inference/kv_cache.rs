//! Paged attention KV cache: the keys and values of each layer's tokens are kept in
//! pages handed out from a shared pool, so that appending a token never copies
//! what is cached; pages go back to the pool when the cache is cleared.
//!
//! The cache is generic over what one token's key and value are (a tensor row, for
//! a model).
use vstd::prelude::*;
use crate::error::FuseError;
use crate::text;

verus! {

/// Configuration of the page-based KV cache.
#[derive(Debug, Clone, Copy)]
pub struct PageConfig {
    /// Tokens per page.
    pub page_size: usize,
    /// Pages in the pool.
    pub max_pages: usize,
}

impl Default for PageConfig {
    fn default() -> (r: PageConfig)
        ensures
            r.page_size == 16,
            r.max_pages == 256,
    {
        PageConfig { page_size: 16, max_pages: 256 }
    }
}

/// Pool of reusable pages, shared by all layers. Free pages form a stack; the next
/// page handed out is the one on top.
#[derive(Debug)]
pub struct PagePool {
    free_pages: Vec<usize>,
    total_pages: usize,
    total_allocated: usize,
    total_freed: usize,
}

/// What a pool holds: the free stack (top last), its size, and how many pages were
/// handed out and given back so far.
pub struct PoolModel {
    pub free: Seq<usize>,
    pub total: nat,
    pub allocations: nat,
    pub frees: nat,
}

impl View for PagePool {
    type V = PoolModel;

    closed spec fn view(&self) -> PoolModel {
        PoolModel {
            free: self.free_pages@,
            total: self.total_pages as nat,
            allocations: self.total_allocated as nat,
            frees: self.total_freed as nat,
        }
    }
}

/// The pages are all accounted for: every page is free or in use, and no more were
/// given back than handed out.
pub open spec fn conserved(p: PoolModel) -> bool {
    p.frees <= p.allocations && p.free.len() + (p.allocations - p.frees) == p.total
}

/// A request made of a pool: hand out a page, or give one back.
pub enum PoolOp {
    Allocate,
    Free(usize),
}

/// What one request does to a pool.
pub open spec fn pool_step(p: PoolModel, op: PoolOp) -> PoolModel {
    match op {
        PoolOp::Allocate => if p.free.len() == 0 {
            p
        } else {
            PoolModel { free: p.free.drop_last(), allocations: p.allocations + 1, ..p }
        },
        PoolOp::Free(id) => PoolModel { free: p.free.push(id), frees: p.frees + 1, ..p },
    }
}

/// The pool after a sequence of requests, in order.
pub open spec fn pool_run(p: PoolModel, ops: Seq<PoolOp>) -> PoolModel
    decreases ops.len(),
{
    if ops.len() == 0 {
        p
    } else {
        pool_step(pool_run(p, ops.drop_last()), ops.last())
    }
}

/// Every page given back in a sequence of requests was in use at the time: no more
/// pages given back than handed out.
pub open spec fn frees_held(p: PoolModel, ops: Seq<PoolOp>) -> bool
    decreases ops.len(),
{
    if ops.len() == 0 {
        true
    } else {
        &&& frees_held(p, ops.drop_last())
        &&& (ops.last() is Free ==> pool_run(p, ops.drop_last()).frees < pool_run(p, ops.drop_last()).allocations)
    }
}

/// How many requests of a sequence handed out a page.
pub open spec fn pages_granted(p: PoolModel, ops: Seq<PoolOp>) -> nat
    decreases ops.len(),
{
    if ops.len() == 0 {
        0
    } else {
        pages_granted(p, ops.drop_last()) + if ops.last() is Allocate && pool_run(p, ops.drop_last()).free.len()
            > 0 {
            1nat
        } else {
            0nat
        }
    }
}

/// How many requests of a sequence gave a page back.
pub open spec fn pages_returned(ops: Seq<PoolOp>) -> nat
    decreases ops.len(),
{
    if ops.len() == 0 {
        0
    } else {
        pages_returned(ops.drop_last()) + if ops.last() is Free {
            1nat
        } else {
            0nat
        }
    }
}

/// Over any sequence of requests that gives back only pages in use, a pool keeps
/// every page accounted for: the pages free and in use add up to the total, which
/// never changes, and the pages in use grow by those handed out and shrink by those
/// given back.
pub proof fn lemma_pool_run(p: PoolModel, ops: Seq<PoolOp>)
    requires
        conserved(p),
        frees_held(p, ops),
    ensures
        conserved(pool_run(p, ops)),
        pool_run(p, ops).total == p.total,
        pool_run(p, ops).allocations - pool_run(p, ops).frees == p.allocations - p.frees + pages_granted(p, ops)
            - pages_returned(ops),
    decreases ops.len(),
{
    if ops.len() > 0 {
        lemma_pool_run(p, ops.drop_last());
    }
}

impl PagePool {
    /// A pool of `max_pages` pages, all free, page 0 on top.
    pub fn new(max_pages: usize) -> (r: PagePool)
        ensures
            r@.total == max_pages,
            r@.allocations == 0,
            r@.frees == 0,
            r@.free.len() == max_pages,
            forall|i: int| 0 <= i < max_pages ==> #[trigger] r@.free[i] == max_pages - 1 - i,
            conserved(r@),
    {
        let mut free_pages: Vec<usize> = Vec::new();
        let mut k: usize = max_pages;
        while k > 0
            invariant
                k <= max_pages,
                free_pages@.len() == max_pages - k,
                forall|i: int| 0 <= i < max_pages - k ==> #[trigger] free_pages@[i] == max_pages - 1
                    - i,
            decreases k,
        {
            k = k - 1;
            free_pages.push(k);
        }
        PagePool { free_pages, total_pages: max_pages, total_allocated: 0, total_freed: 0 }
    }

    /// Takes the page on top of the free stack; `None` when the pool is exhausted.
    pub fn allocate(&mut self) -> (r: Option<usize>)
        requires
            old(self)@.allocations < usize::MAX,
        ensures
            old(self)@.free.len() == 0 ==> r is None && final(self)@ == old(self)@,
            old(self)@.free.len() > 0 ==> r == Some(old(self)@.free.last()) && final(self)@
                == (PoolModel {
                free: old(self)@.free.drop_last(),
                allocations: old(self)@.allocations + 1,
                ..old(self)@
            }),
            conserved(old(self)@) ==> conserved(final(self)@),
            final(self)@ == pool_step(old(self)@, PoolOp::Allocate),
    {
        match self.free_pages.pop() {
            Some(page_id) => {
                self.total_allocated = self.total_allocated + 1;
                Some(page_id)
            },
            None => None,
        }
    }

    /// Puts a page back on top of the free stack.
    pub fn free(&mut self, page_id: usize)
        requires
            old(self)@.frees < usize::MAX,
        ensures
            final(self)@ == (PoolModel {
                free: old(self)@.free.push(page_id),
                frees: old(self)@.frees + 1,
                ..old(self)@
            }),
            conserved(old(self)@) && old(self)@.frees < old(self)@.allocations ==> conserved(
                final(self)@,
            ),
            final(self)@ == pool_step(old(self)@, PoolOp::Free(page_id)),
    {
        self.free_pages.push(page_id);
        self.total_freed = self.total_freed + 1;
    }

    /// Pages currently in use: handed out and not given back.
    pub fn allocated(&self) -> (r: usize)
        requires
            self@.frees <= self@.allocations,
        ensures
            r == self@.allocations - self@.frees,
    {
        self.total_allocated - self.total_freed
    }

    /// Pages free to hand out.
    pub fn free_count(&self) -> (r: usize)
        ensures
            r == self@.free.len(),
    {
        self.free_pages.len()
    }

    /// Pages the pool manages.
    pub fn total(&self) -> (r: usize)
        ensures
            r == self@.total,
    {
        self.total_pages
    }
}

/// Handing out a page and giving it back leaves as many pages free and in use as
/// before, and the page is back on top of the free stack.
pub proof fn lemma_allocate_free_restores(p: PoolModel)
    requires
        p.free.len() > 0,
    ensures
        ({
            let a = PoolModel { free: p.free.drop_last(), allocations: p.allocations + 1, ..p };
            let b = PoolModel { free: a.free.push(p.free.last()), frees: a.frees + 1, ..a };
            &&& b.free == p.free
            &&& b.allocations - b.frees == p.allocations - p.frees
            &&& b.total == p.total
        }),
{
    assert(p.free.drop_last().push(p.free.last()) =~= p.free);
}

/// Slots of a page: the configured page size, or one where it is zero (each token
/// then takes a page of its own).
pub open spec fn slots_per_page(c: PageConfig) -> nat {
    if c.page_size == 0 {
        1
    } else {
        c.page_size as nat
    }
}

/// How many more tokens fit: the free slots of the pages in use and the slots of the
/// free pages.
pub open spec fn room(pages: nat, tokens: nat, cap: nat, free_pages: nat) -> int {
    pages * cap - tokens + free_pages * cap
}

proof fn lemma_room_new_page(p: nat, t: nat, cap: nat, f: nat)
    requires
        f >= 1,
        cap >= 1,
        p * cap >= t,
    ensures
        room(p + 1, t + 1, cap, (f - 1) as nat) == room(p, t, cap, f) - 1,
        room(p, t, cap, f) >= 1,
{
    assert((p + 1) * cap == p * cap + cap) by (nonlinear_arith);
    assert(((f - 1) as nat) * cap == f * cap - cap) by (nonlinear_arith)
        requires
            f >= 1,
    ;
    assert(f * cap >= cap) by (nonlinear_arith)
        requires
            f >= 1,
            cap >= 1,
    ;
}

proof fn lemma_room_same_page(p: nat, t: nat, cap: nat, f: nat)
    requires
        p * cap > t,
    ensures
        room(p, t + 1, cap, f) == room(p, t, cap, f) - 1,
        room(p, t, cap, f) >= 1,
{
    assert(f * cap >= 0) by (nonlinear_arith);
}

/// The first `n` pages on top of a free stack, in the order they are handed out.
pub open spec fn popped(free: Seq<usize>, n: nat) -> Seq<usize> {
    Seq::new(n, |j: int| free[free.len() - 1 - j])
}

/// The keys of a sequence of tokens.
pub open spec fn keys_of<T>(s: Seq<(T, T)>) -> Seq<T> {
    Seq::new(s.len(), |i: int| s[i].0)
}

/// The values of a sequence of tokens.
pub open spec fn values_of<T>(s: Seq<(T, T)>) -> Seq<T> {
    Seq::new(s.len(), |i: int| s[i].1)
}

/// What appending `toks` to the entry `e0` with the pool `p0` gives: the tokens
/// that fit are appended (all of them exactly when the result is `ok`), the pages
/// taken from the top of the free stack are added to the table in the order they
/// are taken, and when not all fit the pool is left with no free page.
pub open spec fn append_outcome<T>(
    e0: PagedKvCacheEntry<T>,
    p0: PoolModel,
    toks: Seq<(T, T)>,
    e1: PagedKvCacheEntry<T>,
    p1: PoolModel,
    ok: bool,
) -> bool {
    let cap = slots_per_page(e0.config());
    let fits = room(e0.table().len(), e0.contents().len(), cap, p0.free.len());
    let k = if toks.len() <= fits { toks.len() as int } else { fits };
    let added = (e1.table().len() - e0.table().len()) as nat;
    &&& e1.wf()
    &&& e1.config() == e0.config()
    &&& (ok <==> toks.len() <= fits)
    &&& e1.contents() == e0.contents() + toks.take(k)
    &&& e1.table().len() >= e0.table().len()
    &&& added <= p0.free.len()
    &&& e1.table() == e0.table() + popped(p0.free, added)
    &&& p1 == (PoolModel {
        free: p0.free.take(p0.free.len() - added),
        allocations: p0.allocations + added,
        ..p0
    })
    &&& !ok ==> p1.free.len() == 0
}

/// One layer's paged KV cache: the tokens appended so far, and the pages (from a
/// pool) that hold them, in order.
pub struct PagedKvCacheEntry<T> {
    page_table: Vec<usize>,
    last_used: usize,
    tokens: Vec<(T, T)>,
    page_config: PageConfig,
}

impl<T> PagedKvCacheEntry<T> {
    /// The pages in use, in the order they were taken.
    pub closed spec fn table(&self) -> Seq<usize> {
        self.page_table@
    }

    /// The key and value of every token appended, in order.
    pub closed spec fn contents(&self) -> Seq<(T, T)> {
        self.tokens@
    }

    /// The page configuration.
    pub closed spec fn config(&self) -> PageConfig {
        self.page_config
    }

    /// Every page but the last is full, the last holds at least one token, and no page
    /// is in use without tokens.
    pub closed spec fn wf(&self) -> bool {
        let cap = slots_per_page(self.page_config);
        &&& (self.page_table@.len() == 0 <==> self.tokens@.len() == 0)
        &&& self.page_table@.len() > 0 ==> 1 <= self.last_used <= cap && self.tokens@.len() == (
        self.page_table@.len() - 1) * cap + self.last_used
    }

    /// An empty entry.
    pub fn new(page_config: PageConfig) -> (r: PagedKvCacheEntry<T>)
        ensures
            r.wf(),
            r.table().len() == 0,
            r.contents().len() == 0,
            r.config() == page_config,
    {
        PagedKvCacheEntry { page_table: Vec::new(), last_used: 0, tokens: Vec::new(), page_config }
    }

    /// The pages in use hold `cap` tokens each but for the free slots of the last.
    pub proof fn lemma_pages_cover(&self)
        requires
            self.wf(),
        ensures
            self.table().len() * slots_per_page(self.config()) >= self.contents().len(),
            self.table().len() > 0 ==> self.table().len() * slots_per_page(self.config())
                < self.contents().len() + slots_per_page(self.config()),
    {
        let cap = slots_per_page(self.page_config);
        let p = self.page_table@.len();
        if p > 0 {
            assert(p * cap == (p - 1) * cap + cap) by (nonlinear_arith);
        }
    }

    /// Appends the tokens' keys and values, one by one, taking a page from the pool
    /// whenever the last page is full. When the pool runs out, the tokens that fit
    /// stay appended and the error is `page pool exhausted`.
    pub fn append(&mut self, pool: &mut PagePool, new_tokens: Vec<(T, T)>) -> (r: Result<(), FuseError>)
        requires
            old(self).wf(),
            old(pool)@.allocations + new_tokens@.len() <= usize::MAX,
            old(self).contents().len() + new_tokens@.len() <= usize::MAX,
        ensures
            append_outcome(*old(self), old(pool)@, new_tokens@, *final(self), final(pool)@, r is Ok),
            r matches Err(e) ==> (e matches FuseError::InferenceError(m) && m@ == "page pool exhausted"@),
    {
        let ghost cap = slots_per_page(self.page_config);
        let ghost start = self.tokens@;
        let ghost table0 = self.page_table@;
        let ghost pool0 = pool@;
        let ghost fits = room(table0.len(), start.len(), cap, pool0.free.len());
        let cap_exec: usize = if self.page_config.page_size == 0 { 1 } else { self.page_config.page_size };
        let mut rest = new_tokens;
        let ghost all = rest@;
        let n: usize = rest.len();
        let mut i: usize = 0;
        proof {
            self.lemma_pages_cover();
            assert(all.take(0) =~= Seq::<(T, T)>::empty());
            assert(start + all.take(0) =~= start);
            assert(popped(pool0.free, 0) =~= Seq::<usize>::empty());
            assert(table0 + popped(pool0.free, 0) =~= table0);
            assert(pool0.free.take(pool0.free.len() - 0) =~= pool0.free);
        }
        while i < n
            invariant
                n == all.len(),
                cap == slots_per_page(self.page_config),
                cap_exec == cap,
                self.wf(),
                self.page_config == old(self).page_config,
                i <= all.len(),
                rest@ == all.skip(i as int),
                all == new_tokens@,
                start == old(self).tokens@,
                table0 == old(self).page_table@,
                pool0 == old(pool)@,
                fits == room(table0.len(), start.len(), cap, pool0.free.len()),
                self.tokens@ == start + all.take(i as int),
                self.page_table@.len() >= table0.len(),
                self.page_table@.len() - table0.len() <= pool0.free.len(),
                self.page_table@ == table0 + popped(pool0.free, (self.page_table@.len() - table0.len()) as nat),
                pool@ == (PoolModel {
                    free: pool0.free.take(pool0.free.len() - (self.page_table@.len() - table0.len())),
                    allocations: (pool0.allocations + (self.page_table@.len() - table0.len())) as nat,
                    ..pool0
                }),
                i <= fits,
                room(self.page_table@.len(), self.tokens@.len(), cap, pool@.free.len()) == fits - i,
                pool0.allocations + all.len() <= usize::MAX,
                start.len() + all.len() <= usize::MAX,
                self.page_table@.len() - table0.len() <= i,
            decreases all.len() - i,
        {
            let ghost added = (self.page_table@.len() - table0.len()) as nat;
            proof {
                self.lemma_pages_cover();
                let p = self.page_table@.len();
                if p > 0 {
                    assert(p * cap == (p - 1) * cap + cap) by (nonlinear_arith);
                }
            }
            let ghost p0 = self.page_table@.len();
            let ghost t0 = self.tokens@.len();
            let ghost f0 = pool@.free.len();
            let need_new_page = self.page_table.len() == 0 || self.last_used >= cap_exec;
            if need_new_page {
                match pool.allocate() {
                    Some(page_id) => {
                        proof {
                            assert(pool0.free.take(pool0.free.len() - added).last() == pool0.free[pool0.free.len() - 1 - added]);
                            assert(pool0.free.take(pool0.free.len() - added).drop_last() =~= pool0.free.take(pool0.free.len() - (added + 1)));
                            assert(popped(pool0.free, added + 1) =~= popped(pool0.free, added).push(page_id));
                        }
                        proof {
                            lemma_room_new_page(p0, t0, cap, f0);
                        }
                        self.page_table.push(page_id);
                        let tok = rest.remove(0);
                        self.tokens.push(tok);
                        self.last_used = 1;
                        proof {
                            let p = self.page_table@.len();
                            if p >= 2 {
                                assert((p - 1) * cap == (p - 2) * cap + cap) by (nonlinear_arith)
                                    requires p >= 2;
                            }
                            assert((table0 + popped(pool0.free, added)).push(page_id) =~= table0 + popped(pool0.free, added + 1));
                        }
                    },
                    None => {
                        proof {
                            let fl = pool@.free.len();
                            assert(fl == 0);
                            assert(fl * cap == 0) by (nonlinear_arith)
                                requires fl == 0;
                            assert(self.page_table@.len() * cap == self.tokens@.len());
                            assert(i == fits);
                            assert(added == pool0.free.len());
                            assert(all.take(fits) =~= all.take(i as int));
                        }
                        return Err(FuseError::InferenceError(text::owned("page pool exhausted")));
                    },
                }
            } else {
                proof {
                    lemma_room_same_page(p0, t0, cap, f0);
                }
                let tok = rest.remove(0);
                self.tokens.push(tok);
                self.last_used = self.last_used + 1;
            }
            proof {
                assert(all.skip(i as int).drop_first() =~= all.skip(i + 1));
                assert(start + all.take(i + 1) =~= (start + all.take(i as int)).push(all[i as int]));
            }
            i = i + 1;
        }
        proof {
            assert(all.take(all.len() as int) =~= all);
        }
        Ok(())
    }

    /// The keys of all tokens, in order; `None` when nothing was appended.
    pub fn key(&self) -> (r: Option<Vec<&T>>)
        requires
            self.wf(),
        ensures
            self.contents().len() == 0 ==> r is None,
            self.contents().len() > 0 ==> (r matches Some(v) && v@.len() == self.contents().len()
                && forall|i: int| 0 <= i < v@.len() ==> *v@[i] == keys_of(self.contents())[i]),
    {
        if self.page_table.len() == 0 {
            return None;
        }
        let mut out: Vec<&T> = Vec::new();
        let mut i: usize = 0;
        while i < self.tokens.len()
            invariant
                i <= self.tokens@.len(),
                out@.len() == i,
                forall|j: int| 0 <= j < i ==> *out@[j] == self.tokens@[j].0,
            decreases self.tokens.len() - i,
        {
            out.push(&self.tokens[i].0);
            i = i + 1;
        }
        Some(out)
    }

    /// The values of all tokens, in order; `None` when nothing was appended.
    pub fn value(&self) -> (r: Option<Vec<&T>>)
        requires
            self.wf(),
        ensures
            self.contents().len() == 0 ==> r is None,
            self.contents().len() > 0 ==> (r matches Some(v) && v@.len() == self.contents().len()
                && forall|i: int| 0 <= i < v@.len() ==> *v@[i] == values_of(self.contents())[i]),
    {
        if self.page_table.len() == 0 {
            return None;
        }
        let mut out: Vec<&T> = Vec::new();
        let mut i: usize = 0;
        while i < self.tokens.len()
            invariant
                i <= self.tokens@.len(),
                out@.len() == i,
                forall|j: int| 0 <= j < i ==> *out@[j] == self.tokens@[j].1,
            decreases self.tokens.len() - i,
        {
            out.push(&self.tokens[i].1);
            i = i + 1;
        }
        Some(out)
    }

    /// Tokens stored.
    pub fn seq_len(&self) -> (r: usize)
        ensures
            r == self.contents().len(),
    {
        self.tokens.len()
    }

    /// Pages in use.
    pub fn pages_used(&self) -> (r: usize)
        ensures
            r == self.table().len(),
    {
        self.page_table.len()
    }

    /// Gives every page back to the pool, in table order, and forgets the tokens.
    pub fn clear(&mut self, pool: &mut PagePool)
        requires
            old(pool)@.frees + old(self).table().len() <= usize::MAX,
        ensures
            final(self).wf(),
            final(self).table().len() == 0,
            final(self).contents().len() == 0,
            final(self).config() == old(self).config(),
            final(pool)@ == (PoolModel {
                free: old(pool)@.free + old(self).table(),
                frees: old(pool)@.frees + old(self).table().len(),
                ..old(pool)@
            }),
    {
        let ghost pool0 = pool@;
        let ghost table0 = self.page_table@;
        let mut i: usize = 0;
        while i < self.page_table.len()
            invariant
                self.page_table@ == table0,
                i <= table0.len(),
                pool0 == old(pool)@,
                pool0.frees + table0.len() <= usize::MAX,
                pool@ == (PoolModel {
                    free: pool0.free + table0.take(i as int),
                    frees: (pool0.frees + i) as nat,
                    ..pool0
                }),
            decreases self.page_table.len() - i,
        {
            pool.free(self.page_table[i]);
            proof {
                assert(pool0.free + table0.take(i + 1) =~= (pool0.free + table0.take(i as int)).push(table0[i as int]));
            }
            i = i + 1;
        }
        proof {
            assert(table0.take(table0.len() as int) =~= table0);
        }
        self.page_table = Vec::new();
        self.tokens = Vec::new();
        self.last_used = 0;
    }
}

/// Pages in use by a run of layers.
pub open spec fn pages_in_use<T>(layers: Seq<PagedKvCacheEntry<T>>) -> nat
    decreases layers.len(),
{
    if layers.len() == 0 {
        0
    } else {
        pages_in_use(layers.drop_last()) + layers.last().table().len()
    }
}

proof fn lemma_pages_in_use_update<T>(s: Seq<PagedKvCacheEntry<T>>, i: int, e: PagedKvCacheEntry<T>)
    requires
        0 <= i < s.len(),
    ensures
        pages_in_use(s.update(i, e)) == pages_in_use(s) - s[i].table().len() + e.table().len(),
    decreases s.len(),
{
    if i < s.len() - 1 {
        assert(s.update(i, e).drop_last() =~= s.drop_last().update(i, e));
        lemma_pages_in_use_update(s.drop_last(), i, e);
    } else {
        assert(s.update(i, e).drop_last() =~= s.drop_last());
    }
}

proof fn lemma_pages_in_use_prefix<T>(s: Seq<PagedKvCacheEntry<T>>, n: int)
    requires
        0 <= n <= s.len(),
    ensures
        pages_in_use(s.take(n)) <= pages_in_use(s),
        n < s.len() ==> pages_in_use(s.take(n + 1)) == pages_in_use(s.take(n)) + s[n].table().len(),
    decreases s.len(),
{
    if n < s.len() {
        assert(s.take(n + 1).drop_last() =~= s.take(n));
        if n + 1 < s.len() {
            lemma_pages_in_use_prefix(s.drop_last(), n + 1);
            assert(s.drop_last().take(n + 1) =~= s.take(n + 1));
        } else {
            assert(s.take(n + 1) =~= s);
        }
    } else {
        assert(s.take(n) =~= s);
    }
}

/// Multi-layer paged KV cache: one entry per layer, all taking pages from one pool.
pub struct PagedKvCache<T> {
    layers: Vec<PagedKvCacheEntry<T>>,
    pool: PagePool,
    page_config: PageConfig,
}

impl<T> PagedKvCache<T> {
    /// The layers' entries.
    pub closed spec fn layers(&self) -> Seq<PagedKvCacheEntry<T>> {
        self.layers@
    }

    /// The shared pool.
    pub closed spec fn pool(&self) -> PoolModel {
        self.pool@
    }

    /// The page configuration.
    pub closed spec fn config(&self) -> PageConfig {
        self.page_config
    }

    /// Every layer is well formed with the cache's configuration, and the pool's pages
    /// in use are exactly the pages in the layers' tables.
    pub closed spec fn wf(&self) -> bool {
        &&& forall|i: int|
            0 <= i < self.layers@.len() ==> (#[trigger] self.layers@[i]).wf() && self.layers@[i].config()
                == self.page_config
        &&& conserved(self.pool@)
        &&& self.pool@.allocations - self.pool@.frees == pages_in_use(self.layers@)
        &&& self.pool@.total == self.page_config.max_pages
    }

    /// A cache of `num_layers` empty layers sharing a pool of `max_pages` pages.
    pub fn new(num_layers: usize, page_config: PageConfig) -> (r: PagedKvCache<T>)
        ensures
            r.wf(),
            r.config() == page_config,
            r.layers().len() == num_layers,
            forall|i: int| 0 <= i < num_layers ==> (#[trigger] r.layers()[i]).contents().len() == 0,
            r.pool().allocations == 0,
            r.pool().frees == 0,
            r.pool().free.len() == page_config.max_pages,
    {
        let pool = PagePool::new(page_config.max_pages);
        let mut layers: Vec<PagedKvCacheEntry<T>> = Vec::new();
        let mut k: usize = 0;
        while k < num_layers
            invariant
                k <= num_layers,
                layers@.len() == k,
                forall|i: int|
                    0 <= i < k ==> (#[trigger] layers@[i]).wf() && layers@[i].config() == page_config
                        && layers@[i].contents().len() == 0 && layers@[i].table().len() == 0,
                pages_in_use(layers@) == 0,
            decreases num_layers - k,
        {
            let e = PagedKvCacheEntry::new(page_config);
            proof {
                assert(layers@.push(e).drop_last() =~= layers@);
            }
            layers.push(e);
            k = k + 1;
        }
        PagedKvCache { layers, pool, page_config }
    }

    /// Appends tokens to one layer, taking pages from the shared pool, as
    /// `PagedKvCacheEntry::append` does; the other layers are unchanged.
    pub fn append(&mut self, layer: usize, new_tokens: Vec<(T, T)>) -> (r: Result<(), FuseError>)
        requires
            old(self).wf(),
            layer < old(self).layers().len(),
            old(self).pool().allocations + new_tokens@.len() <= usize::MAX,
            old(self).layers()[layer as int].contents().len() + new_tokens@.len() <= usize::MAX,
        ensures
            final(self).wf(),
            final(self).config() == old(self).config(),
            final(self).layers().len() == old(self).layers().len(),
            forall|j: int|
                0 <= j < old(self).layers().len() && j != layer ==> #[trigger] final(self).layers()[j]
                    == old(self).layers()[j],
            append_outcome(
                old(self).layers()[layer as int],
                old(self).pool(),
                new_tokens@,
                final(self).layers()[layer as int],
                final(self).pool(),
                r is Ok,
            ),
            r matches Err(e) ==> (e matches FuseError::InferenceError(m) && m@ == "page pool exhausted"@),
    {
        let ghost layers0 = self.layers@;
        let mut entry = self.layers.remove(layer);
        let r = entry.append(&mut self.pool, new_tokens);
        self.layers.insert(layer, entry);
        proof {
            assert(self.layers@ =~= layers0.update(layer as int, entry));
            lemma_pages_in_use_update(layers0, layer as int, entry);
            assert forall|i: int| 0 <= i < self.layers@.len() implies (#[trigger] self.layers@[i]).wf()
                && self.layers@[i].config() == self.page_config by {
                if i != layer {
                    assert(self.layers@[i] == layers0[i]);
                }
            }
        }
        r
    }

    /// One layer's entry.
    pub fn layer(&self, idx: usize) -> (r: &PagedKvCacheEntry<T>)
        requires
            idx < self.layers().len(),
        ensures
            *r == self.layers()[idx as int],
    {
        &self.layers[idx]
    }

    /// Tokens in the first layer; 0 when there is no layer.
    pub fn seq_len(&self) -> (r: usize)
        ensures
            self.layers().len() == 0 ==> r == 0,
            self.layers().len() > 0 ==> r == self.layers()[0].contents().len(),
    {
        if self.layers.len() == 0 {
            0
        } else {
            self.layers[0].seq_len()
        }
    }

    /// Clears every layer; all pages go back to the pool.
    pub fn clear(&mut self)
        requires
            old(self).wf(),
        ensures
            final(self).wf(),
            final(self).config() == old(self).config(),
            final(self).layers().len() == old(self).layers().len(),
            forall|i: int|
                0 <= i < final(self).layers().len() ==> (#[trigger] final(self).layers()[i]).contents().len()
                    == 0 && final(self).layers()[i].table().len() == 0,
            final(self).pool().allocations - final(self).pool().frees == 0,
            final(self).pool().free.len() == final(self).pool().total,
            final(self).pool().total == old(self).pool().total,
    {
        let ghost n = self.layers@.len();
        let mut i: usize = 0;
        while i < self.layers.len()
            invariant
                self.wf(),
                self.layers@.len() == n,
                i <= n,
                self.page_config == old(self).page_config,
                self.pool@.total == old(self).pool@.total,
                forall|j: int|
                    0 <= j < i ==> (#[trigger] self.layers@[j]).contents().len() == 0
                        && self.layers@[j].table().len() == 0,
            decreases n - i,
        {
            let ghost layers0 = self.layers@;
            proof {
                lemma_pages_in_use_update(layers0, i as int, layers0[i as int]);
                assert(layers0.update(i as int, layers0[i as int]) =~= layers0);
                lemma_pages_in_use_prefix(layers0, i as int);
                lemma_pages_in_use_prefix(layers0, i + 1);
                assert(self.pool.total_allocated <= usize::MAX);
            }
            let mut entry = self.layers.remove(i);
            entry.clear(&mut self.pool);
            self.layers.insert(i, entry);
            proof {
                assert(self.layers@ =~= layers0.update(i as int, entry));
                lemma_pages_in_use_update(layers0, i as int, entry);
                assert forall|j: int| 0 <= j < self.layers@.len() implies (#[trigger] self.layers@[j]).wf()
                    && self.layers@[j].config() == self.page_config by {
                    if j != i {
                        assert(self.layers@[j] == layers0[j]);
                    }
                }
            }
            i = i + 1;
        }
        proof {
            self.lemma_empty_layers_free_pool();
        }
    }

    proof fn lemma_empty_layers_free_pool(&self)
        requires
            self.wf(),
            forall|j: int| 0 <= j < self.layers@.len() ==> (#[trigger] self.layers@[j]).table().len() == 0,
        ensures
            pages_in_use(self.layers@) == 0,
            self.pool@.free.len() == self.pool@.total,
    {
        lemma_no_pages_in_use(self.layers@);
    }

    /// Layers in the cache.
    pub fn num_layers(&self) -> (r: usize)
        ensures
            r == self.layers().len(),
    {
        self.layers.len()
    }

    /// Pages in use over all layers.
    pub fn pages_used(&self) -> (r: usize)
        requires
            self.wf(),
        ensures
            r == pages_in_use(self.layers()),
    {
        let mut total: usize = 0;
        let mut i: usize = 0;
        while i < self.layers.len()
            invariant
                self.wf(),
                i <= self.layers@.len(),
                total == pages_in_use(self.layers@.take(i as int)),
            decreases self.layers.len() - i,
        {
            proof {
                lemma_pages_in_use_prefix(self.layers@, i as int);
                lemma_pages_in_use_prefix(self.layers@, i + 1);
            }
            total = total + self.layers[i].pages_used();
            i = i + 1;
        }
        proof {
            assert(self.layers@.take(self.layers@.len() as int) =~= self.layers@);
        }
        total
    }

    /// Pool statistics: pages in use, free pages, and pages in all.
    pub fn pool_stats(&self) -> (r: (usize, usize, usize))
        requires
            self.wf(),
        ensures
            r.0 == self.pool().allocations - self.pool().frees,
            r.1 == self.pool().free.len(),
            r.2 == self.pool().total,
    {
        (self.pool.allocated(), self.pool.free_count(), self.pool.total())
    }
}

proof fn lemma_no_pages_in_use<T>(s: Seq<PagedKvCacheEntry<T>>)
    requires
        forall|j: int| 0 <= j < s.len() ==> (#[trigger] s[j]).table().len() == 0,
    ensures
        pages_in_use(s) == 0,
    decreases s.len(),
{
    if s.len() > 0 {
        lemma_no_pages_in_use(s.drop_last());
    }
}

/// A stand-alone layer cache with a pool of its own, of the default configuration.
pub struct KvCacheEntry<T> {
    inner: PagedKvCacheEntry<T>,
    pool: PagePool,
}

impl<T> KvCacheEntry<T> {
    /// The paged entry.
    pub closed spec fn entry(&self) -> PagedKvCacheEntry<T> {
        self.inner
    }

    /// Its pool.
    pub closed spec fn pool(&self) -> PoolModel {
        self.pool@
    }

    /// The entry is well formed with the default configuration, and the pool's pages
    /// in use are the entry's.
    pub closed spec fn wf(&self) -> bool {
        &&& self.inner.wf()
        &&& self.inner.config() == (PageConfig { page_size: 16, max_pages: 256 })
        &&& conserved(self.pool@)
        &&& self.pool@.allocations - self.pool@.frees == self.inner.table().len()
    }

    /// An empty entry with a pool of 256 pages of 16 tokens.
    pub fn new() -> (r: KvCacheEntry<T>)
        ensures
            r.wf(),
            r.entry().contents().len() == 0,
            r.pool().allocations == 0,
    {
        let config = PageConfig::default();
        KvCacheEntry { inner: PagedKvCacheEntry::new(config), pool: PagePool::new(config.max_pages) }
    }

    /// Appends tokens, as `PagedKvCacheEntry::append` does with the entry's own pool.
    pub fn append(&mut self, new_tokens: Vec<(T, T)>) -> (r: Result<(), FuseError>)
        requires
            old(self).wf(),
            old(self).pool().allocations + new_tokens@.len() <= usize::MAX,
            old(self).entry().contents().len() + new_tokens@.len() <= usize::MAX,
        ensures
            final(self).wf(),
            append_outcome(
                old(self).entry(),
                old(self).pool(),
                new_tokens@,
                final(self).entry(),
                final(self).pool(),
                r is Ok,
            ),
            r matches Err(e) ==> (e matches FuseError::InferenceError(m) && m@ == "page pool exhausted"@),
    {
        self.inner.append(&mut self.pool, new_tokens)
    }

    /// A borrowed key tensor cannot be handed out of paged storage: always `None`.
    /// `key_owned` gives the keys.
    pub fn key(&self) -> (r: Option<&T>)
        ensures
            r is None,
    {
        None
    }

    /// A borrowed value tensor cannot be handed out of paged storage: always `None`.
    /// `value_owned` gives the values.
    pub fn value(&self) -> (r: Option<&T>)
        ensures
            r is None,
    {
        None
    }

    /// The keys of all tokens, in order; `None` when nothing was appended.
    pub fn key_owned(&self) -> (r: Option<Vec<&T>>)
        requires
            self.wf(),
        ensures
            self.entry().contents().len() == 0 ==> r is None,
            self.entry().contents().len() > 0 ==> (r matches Some(v) && v@.len()
                == self.entry().contents().len() && forall|i: int|
                0 <= i < v@.len() ==> *v@[i] == keys_of(self.entry().contents())[i]),
    {
        self.inner.key()
    }

    /// The values of all tokens, in order; `None` when nothing was appended.
    pub fn value_owned(&self) -> (r: Option<Vec<&T>>)
        requires
            self.wf(),
        ensures
            self.entry().contents().len() == 0 ==> r is None,
            self.entry().contents().len() > 0 ==> (r matches Some(v) && v@.len()
                == self.entry().contents().len() && forall|i: int|
                0 <= i < v@.len() ==> *v@[i] == values_of(self.entry().contents())[i]),
    {
        self.inner.value()
    }

    /// Tokens stored.
    pub fn seq_len(&self) -> (r: usize)
        ensures
            r == self.entry().contents().len(),
    {
        self.inner.seq_len()
    }

    /// Forgets the tokens and gives the pages back to the pool.
    pub fn clear(&mut self)
        requires
            old(self).wf(),
        ensures
            final(self).wf(),
            final(self).entry().contents().len() == 0,
            final(self).pool().allocations - final(self).pool().frees == 0,
    {
        assert(self.pool.total_allocated <= usize::MAX);
        self.inner.clear(&mut self.pool);
    }
}

/// A multi-layer cache of the default configuration.
pub struct KvCache<T> {
    inner: PagedKvCache<T>,
}

impl<T> KvCache<T> {
    /// The paged cache.
    pub closed spec fn cache(&self) -> PagedKvCache<T> {
        self.inner
    }

    /// A cache of `num_layers` empty layers sharing a pool of 256 pages of 16 tokens.
    pub fn new(num_layers: usize) -> (r: KvCache<T>)
        ensures
            r.cache().wf(),
            r.cache().layers().len() == num_layers,
            r.cache().config() == (PageConfig { page_size: 16, max_pages: 256 }),
            forall|i: int| 0 <= i < num_layers ==> (#[trigger] r.cache().layers()[i]).contents().len()
                == 0,
            r.cache().pool().allocations == 0,
    {
        KvCache { inner: PagedKvCache::new(num_layers, PageConfig::default()) }
    }

    /// Appends tokens to one layer, as `PagedKvCache::append` does.
    pub fn append(&mut self, layer: usize, new_tokens: Vec<(T, T)>) -> (r: Result<(), FuseError>)
        requires
            old(self).cache().wf(),
            layer < old(self).cache().layers().len(),
            old(self).cache().pool().allocations + new_tokens@.len() <= usize::MAX,
            old(self).cache().layers()[layer as int].contents().len() + new_tokens@.len()
                <= usize::MAX,
        ensures
            final(self).cache().wf(),
            final(self).cache().layers().len() == old(self).cache().layers().len(),
            forall|j: int|
                0 <= j < old(self).cache().layers().len() && j != layer
                    ==> #[trigger] final(self).cache().layers()[j] == old(self).cache().layers()[j],
            append_outcome(
                old(self).cache().layers()[layer as int],
                old(self).cache().pool(),
                new_tokens@,
                final(self).cache().layers()[layer as int],
                final(self).cache().pool(),
                r is Ok,
            ),
    {
        self.inner.append(layer, new_tokens)
    }

    /// One layer's entry.
    pub fn layer(&self, idx: usize) -> (r: &PagedKvCacheEntry<T>)
        requires
            idx < self.cache().layers().len(),
        ensures
            *r == self.cache().layers()[idx as int],
    {
        self.inner.layer(idx)
    }

    /// Tokens in the first layer; 0 when there is no layer.
    pub fn seq_len(&self) -> (r: usize)
        ensures
            self.cache().layers().len() == 0 ==> r == 0,
            self.cache().layers().len() > 0 ==> r == self.cache().layers()[0].contents().len(),
    {
        self.inner.seq_len()
    }

    /// Clears every layer; all pages go back to the pool.
    pub fn clear(&mut self)
        requires
            old(self).cache().wf(),
        ensures
            final(self).cache().wf(),
            final(self).cache().layers().len() == old(self).cache().layers().len(),
            forall|i: int|
                0 <= i < final(self).cache().layers().len() ==> (
                #[trigger] final(self).cache().layers()[i]).contents().len() == 0,
            final(self).cache().pool().allocations - final(self).cache().pool().frees == 0,
    {
        self.inner.clear()
    }

    /// Layers in the cache.
    pub fn num_layers(&self) -> (r: usize)
        ensures
            r == self.cache().layers().len(),
    {
        self.inner.num_layers()
    }

    /// Pages in use over all layers.
    pub fn pages_used(&self) -> (r: usize)
        requires
            self.cache().wf(),
        ensures
            r == pages_in_use(self.cache().layers()),
    {
        self.inner.pages_used()
    }

    /// Pool statistics: pages in use, free pages, and pages in all.
    pub fn pool_stats(&self) -> (r: (usize, usize, usize))
        requires
            self.cache().wf(),
        ensures
            r.0 == self.cache().pool().allocations - self.cache().pool().frees,
            r.1 == self.cache().pool().free.len(),
            r.2 == self.cache().pool().total,
    {
        self.inner.pool_stats()
    }
}

/// A layer uses as many pages as its tokens fill: the number of tokens divided by
/// the page size, rounded up.
pub proof fn lemma_pages_for_tokens<T>(e: PagedKvCacheEntry<T>)
    requires
        e.wf(),
    ensures
        e.table().len() == (e.contents().len() + slots_per_page(e.config()) - 1) / (slots_per_page(
            e.config(),
        ) as int),
{
    e.lemma_pages_cover();
    let p = e.table().len() as int;
    let t = e.contents().len() as int;
    let c = slots_per_page(e.config()) as int;
    if p == 0 {
        assert(t == 0);
        assert((c - 1) / c == 0) by (nonlinear_arith)
            requires
                c >= 1,
        ;
    } else {
        assert((t + c - 1) / c == p) by (nonlinear_arith)
            requires
                c >= 1,
                p * c >= t,
                p * c < t + c,
        ;
    }
}

} // verus!

//! Per-filesystem serialization tokens. Any mutating operation must hold the
//! token of the filesystem it targets for its whole duration, so at most one
//! mutation per filesystem is ever in flight; acquisition is non-blocking.

use vstd::prelude::*;

verus! {

/// The table of currently held per-filesystem tokens, as filesystem uuids.
#[derive(Debug)]
pub struct TokenTable {
    held: Vec<u128>,
}

impl View for TokenTable {
    type V = Seq<u128>;

    closed spec fn view(&self) -> Seq<u128> {
        self.held@
    }
}

/// Whether the token of filesystem `fs` is currently held.
pub open spec fn token_held(t: Seq<u128>, fs: u128) -> bool {
    t.contains(fs)
}

/// The table is well-formed when no token appears twice.
pub open spec fn tokens_wf(t: Seq<u128>) -> bool {
    forall|i: int, j: int| 0 <= i < j < t.len() ==> t[i] != t[j]
}

impl TokenTable {
    /// An empty table: no token held.
    pub fn new() -> (t: TokenTable)
        ensures
            t@ == Seq::<u128>::empty(),
            tokens_wf(t@),
    {
        TokenTable { held: Vec::new() }
    }

    /// Whether the token of `fs` is currently held.
    pub fn is_held(&self, fs: u128) -> (r: bool)
        ensures
            r == token_held(self@, fs),
    {
        let mut i: usize = 0;
        while i < self.held.len()
            invariant
                0 <= i <= self.held.len(),
                forall|k: int| 0 <= k < i ==> self.held@[k] != fs,
            decreases self.held.len() - i,
        {
            if self.held[i] == fs {
                return true;
            }
            i = i + 1;
        }
        proof {
            assert(!self@.contains(fs));
        }
        false
    }

    /// Attempts to acquire the token of `fs` without blocking. Returns whether
    /// the token was acquired; on failure the table is unchanged.
    pub fn try_acquire(&mut self, fs: u128) -> (acquired: bool)
        requires
            tokens_wf(old(self)@),
        ensures
            tokens_wf(final(self)@),
            acquired == !token_held(old(self)@, fs),
            acquired ==> final(self)@ == old(self)@.push(fs),
            !acquired ==> final(self)@ == old(self)@,
            token_held(final(self)@, fs),
    {
        if self.is_held(fs) {
            false
        } else {
            self.held.push(fs);
            proof {
                assert(self@.last() == fs);
                assert(token_held(self@, fs));
            }
            true
        }
    }

    /// Releases the token of `fs` if it is held; afterwards it is not held,
    /// and no other token is affected.
    pub fn release(&mut self, fs: u128)
        requires
            tokens_wf(old(self)@),
        ensures
            tokens_wf(final(self)@),
            !token_held(final(self)@, fs),
            forall|u: u128|
                u != fs ==> token_held(final(self)@, u) == token_held(old(self)@, u),
            !token_held(old(self)@, fs) ==> final(self)@ == old(self)@,
    {
        let mut i: usize = 0;
        while i < self.held.len()
            invariant
                0 <= i <= self.held.len(),
                tokens_wf(self.held@),
                self.held@ == old(self)@,
                forall|k: int| 0 <= k < i ==> self.held@[k] != fs,
            decreases self.held.len() - i,
        {
            if self.held[i] == fs {
                let ghost pre = self.held@;
                self.held.remove(i);
                proof {
                    assert(self.held@ =~= pre.subrange(0, i as int) + pre.subrange(
                        i + 1,
                        pre.len() as int,
                    ));
                    assert forall|u: u128| u != fs implies token_held(self.held@, u)
                        == token_held(pre, u) by {
                        if token_held(pre, u) {
                            let k = choose|k: int| 0 <= k < pre.len() && pre[k] == u;
                            if k < i {
                                assert(self.held@[k] == u);
                            } else {
                                assert(k != i);
                                assert(self.held@[k - 1] == u);
                            }
                        }
                        if token_held(self.held@, u) {
                            let k = choose|k: int|
                                0 <= k < self.held@.len() && self.held@[k] == u;
                            if k < i {
                                assert(pre[k] == u);
                            } else {
                                assert(pre[k + 1] == u);
                            }
                        }
                    }
                    assert(!token_held(self.held@, fs)) by {
                        if token_held(self.held@, fs) {
                            let k = choose|k: int|
                                0 <= k < self.held@.len() && self.held@[k] == fs;
                            if k < i {
                                assert(pre[k] == fs);
                            } else {
                                assert(pre[k + 1] == fs);
                                assert(0 <= i < k + 1 < pre.len());
                            }
                        }
                    }
                }
                return ;
            }
            i = i + 1;
        }
        proof {
            assert(!token_held(self.held@, fs));
        }
    }
}

} // verus!

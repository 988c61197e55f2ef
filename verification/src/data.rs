//! Per-process bookkeeping: the environment and the recorded stack range.
//!
//! The environment is an ordered key/value mapping with unique keys; the
//! stack segment is the half-open page range the process currently has
//! mapped for its stack, the basis for the page-fault stack-growth check.

use vstd::prelude::*;
use vstd::pervasive::VecAdditionalExecFns;

use crate::memory::{page_base, spec_page_base, PageRange, PAGE_SIZE};
use crate::proc::STACK_START_MASK;

verus! {

/// Value bound to `key` in an association list, first match wins (keys are
/// kept unique, so at most one match exists).
pub open spec fn spec_env_lookup(env: Seq<(String, String)>, key: Seq<char>) -> Option<Seq<char>>
    decreases env.len(),
{
    if env.len() == 0 {
        None
    } else if env[0].0@ == key {
        Some(env[0].1@)
    } else {
        spec_env_lookup(env.drop_first(), key)
    }
}

/// `spec_env_lookup` finds exactly the keys that are present.
pub proof fn lemma_env_lookup_some(env: Seq<(String, String)>, key: Seq<char>)
    ensures
        (spec_env_lookup(env, key) is Some) <==> exists|j: int|
            0 <= j < env.len() && (#[trigger] env[j]).0@ == key,
    decreases env.len(),
{
    if env.len() > 0 {
        lemma_env_lookup_some(env.drop_first(), key);
        if env[0].0@ == key {
        } else if spec_env_lookup(env.drop_first(), key) is Some {
            let j = choose|j: int|
                0 <= j < env.drop_first().len() && (#[trigger] env.drop_first()[j]).0@ == key;
            assert(env[j + 1].0@ == key);
        } else {
            assert forall|j: int| 0 <= j < env.len() implies (#[trigger] env[j]).0@ != key by {
                if j > 0 {
                    assert(env.drop_first()[j - 1] == env[j]);
                }
            }
        }
    }
}

/// Updating one key leaves every other key's binding alone.
proof fn lemma_env_lookup_update(
    env: Seq<(String, String)>,
    updated: Seq<(String, String)>,
    i: int,
    pair: (String, String),
)
    requires
        0 <= i < env.len(),
        updated == env.update(i, pair),
        env[i].0@ == pair.0@,
        forall|a: int, b: int| 0 <= a < b < env.len() ==> (#[trigger] env[a]).0@ != (#[trigger] env[b]).0@,
    ensures
        spec_env_lookup(updated, pair.0@) == Some(pair.1@),
        forall|k: Seq<char>| k != pair.0@
            ==> #[trigger] spec_env_lookup(updated, k) == spec_env_lookup(env, k),
    decreases env.len(),
{
    if i == 0 {
        assert(updated[0] == pair);
        assert(updated.drop_first() =~= env.drop_first());
        assert forall|k: Seq<char>| k != pair.0@
            implies #[trigger] spec_env_lookup(updated, k) == spec_env_lookup(env, k) by {
            assert(spec_env_lookup(updated, k) == spec_env_lookup(updated.drop_first(), k));
            assert(spec_env_lookup(env, k) == spec_env_lookup(env.drop_first(), k));
        }
    } else {
        assert(updated[0] == env[0]);
        assert(updated.drop_first() =~= env.drop_first().update(i - 1, pair));
        assert(env.drop_first()[i - 1] == env[i]);
        assert forall|a: int, b: int| 0 <= a < b < env.drop_first().len()
            implies (#[trigger] env.drop_first()[a]).0@ != (#[trigger] env.drop_first()[b]).0@ by {
            assert(env.drop_first()[a] == env[a + 1]);
            assert(env.drop_first()[b] == env[b + 1]);
        }
        lemma_env_lookup_update(env.drop_first(), updated.drop_first(), i - 1, pair);
        assert(env[0].0@ != env[i].0@);
        assert(spec_env_lookup(updated, pair.0@)
            == spec_env_lookup(updated.drop_first(), pair.0@));
        assert forall|k: Seq<char>| k != pair.0@
            implies #[trigger] spec_env_lookup(updated, k) == spec_env_lookup(env, k) by {
            if env[0].0@ == k {
            } else {
                assert(spec_env_lookup(updated, k) == spec_env_lookup(updated.drop_first(), k));
                assert(spec_env_lookup(env, k) == spec_env_lookup(env.drop_first(), k));
            }
        }
    }
}

/// Appending a fresh key binds it and leaves every other key alone.
proof fn lemma_env_lookup_push(env: Seq<(String, String)>, pair: (String, String))
    requires
        forall|j: int| 0 <= j < env.len() ==> (#[trigger] env[j]).0@ != pair.0@,
    ensures
        spec_env_lookup(env.push(pair), pair.0@) == Some(pair.1@),
        forall|k: Seq<char>| k != pair.0@
            ==> #[trigger] spec_env_lookup(env.push(pair), k) == spec_env_lookup(env, k),
    decreases env.len(),
{
    if env.len() == 0 {
        assert(env.push(pair)[0] == pair);
        assert(env.push(pair).drop_first() =~= env);
    } else {
        assert(env.push(pair)[0] == env[0]);
        assert(env.push(pair).drop_first() =~= env.drop_first().push(pair));
        assert forall|j: int| 0 <= j < env.drop_first().len()
            implies (#[trigger] env.drop_first()[j]).0@ != pair.0@ by {
            assert(env.drop_first()[j] == env[j + 1]);
        }
        lemma_env_lookup_push(env.drop_first(), pair);
        assert(env[0].0@ != pair.0@);
        assert(spec_env_lookup(env.push(pair), pair.0@)
            == spec_env_lookup(env.drop_first().push(pair), pair.0@));
        assert forall|k: Seq<char>| k != pair.0@
            implies #[trigger] spec_env_lookup(env.push(pair), k) == spec_env_lookup(env, k) by {
            if env[0].0@ == k {
            } else {
                assert(spec_env_lookup(env.push(pair), k)
                    == spec_env_lookup(env.drop_first().push(pair), k));
                assert(spec_env_lookup(env, k) == spec_env_lookup(env.drop_first(), k));
            }
        }
    }
}

/// Environment and stack range of one process.
pub struct ProcessData {
    /// Ordered string-to-string mapping, keys unique.
    pub env: Vec<(String, String)>,
    /// The half-open page range currently mapped as this process's stack.
    pub stack_segment: Option<PageRange>,
}

impl ProcessData {
    /// Keys are unique and the recorded stack range, if any, is a sane page
    /// range.
    pub open spec fn wf(self) -> bool {
        &&& forall|a: int, b: int| 0 <= a < b < self.env@.len()
            ==> (#[trigger] self.env@[a]).0@ != (#[trigger] self.env@[b]).0@
        &&& match self.stack_segment {
            Some(r) => r.wf() && r.start < r.end,
            None => true,
        }
    }

    /// Empty environment, no stack recorded.
    pub fn new() -> (r: ProcessData)
        ensures
            r.wf(),
            r.env@.len() == 0,
            r.stack_segment is None,
    {
        ProcessData { env: Vec::new(), stack_segment: None }
    }

    /// The value bound to `key`, if any.
    pub fn env(&self, key: &String) -> (r: Option<String>)
        requires
            self.wf(),
        ensures
            match r {
                Some(v) => spec_env_lookup(self.env@, key@) == Some(v@),
                None => spec_env_lookup(self.env@, key@) is None,
            },
    {
        let n = self.env.len();
        let mut i: usize = 0;
        while i < n
            invariant
                n == self.env@.len(),
                i <= n,
                self.wf(),
                forall|j: int| 0 <= j < i ==> (#[trigger] self.env@[j]).0@ != key@,
            decreases n - i,
        {
            if self.env[i].0 == *key {
                let v = self.env[i].1.clone();
                proof {
                    lemma_env_first_match(self.env@, key@, i as int);
                }
                return Some(v);
            }
            i = i + 1;
        }
        proof {
            lemma_env_lookup_some(self.env@, key@);
        }
        None
    }

    /// Bind `key` to `val`, replacing any previous binding.
    pub fn set_env(&mut self, key: &String, val: &String)
        requires
            old(self).wf(),
        ensures
            final(self).wf(),
            spec_env_lookup(final(self).env@, key@) == Some(val@),
            forall|k: Seq<char>| k != key@
                ==> #[trigger] spec_env_lookup(final(self).env@, k)
                    == spec_env_lookup(old(self).env@, k),
            final(self).stack_segment == old(self).stack_segment,
    {
        let n = self.env.len();
        let mut i: usize = 0;
        while i < n
            invariant
                n == self.env@.len(),
                i <= n,
                self.wf(),
                *self == *old(self),
                forall|j: int| 0 <= j < i ==> (#[trigger] self.env@[j]).0@ != key@,
            decreases n - i,
        {
            if self.env[i].0 == *key {
                let pair = (key.clone(), val.clone());
                let ghost gpair = pair;
                self.env.set(i, pair);
                proof {
                    lemma_env_lookup_update(old(self).env@, self.env@, i as int, gpair);
                    assert(spec_env_lookup(self.env@, key@) == Some(val@));
                }
                return;
            }
            i = i + 1;
        }
        let pair = (key.clone(), val.clone());
        let ghost gpair = pair;
        self.env.push(pair);
        proof {
            lemma_env_lookup_push(old(self).env@, gpair);
            assert forall|a: int, b: int| 0 <= a < b < self.env@.len()
                implies (#[trigger] self.env@[a]).0@ != (#[trigger] self.env@[b]).0@ by {
                assert(self.env@[a] == old(self).env@[a]);
                if b < self.env@.len() - 1 {
                    assert(self.env@[b] == old(self).env@[b]);
                } else {
                    assert(self.env@[b] == gpair);
                }
            }
        }
    }

    /// Record the process stack: `size_pages` pages from the page containing
    /// `start`.
    pub fn set_stack(&mut self, start: u64, size_pages: u64)
        requires
            size_pages > 0,
            spec_page_base(start) + size_pages * (PAGE_SIZE as int) <= u64::MAX,
        ensures
            final(self).stack_segment == Some(PageRange {
                start: spec_page_base(start),
                end: (spec_page_base(start) + size_pages * (PAGE_SIZE as int)) as u64,
            }),
            final(self).env == old(self).env,
            old(self).wf() ==> final(self).wf(),
    {
        let base = page_base(start);
        proof {
            assert(size_pages * 4096 > 0 && (size_pages * 4096) % 4096 == 0) by (nonlinear_arith)
                requires
                    size_pages > 0,
            ;
            assert((base + size_pages * 4096) % 4096 == 0) by (nonlinear_arith)
                requires
                    base % 4096 == 0,
                    (size_pages * 4096) % 4096 == 0,
                    size_pages > 0,
            ;
        }
        self.stack_segment = Some(PageRange { start: base, end: base + size_pages * PAGE_SIZE });
    }

    /// Whether `addr` falls in this process's stack slot: the bits above the
    /// maximal stack size must match those of the recorded stack base.
    pub fn is_on_stack(&self, addr: u64) -> (r: bool)
        ensures
            r == match self.stack_segment {
                Some(range) => (addr & STACK_START_MASK) == (range.start & STACK_START_MASK),
                None => false,
            },
    {
        match &self.stack_segment {
            Some(range) => (addr & STACK_START_MASK) == (range.start & STACK_START_MASK),
            None => false,
        }
    }
}

impl Default for ProcessData {
    fn default() -> (r: ProcessData)
        ensures
            r.wf(),
            r.env@.len() == 0,
            r.stack_segment is None,
    {
        ProcessData::new()
    }
}

/// With unique keys, the first match found by a scan is the lookup result.
proof fn lemma_env_first_match(env: Seq<(String, String)>, key: Seq<char>, i: int)
    requires
        0 <= i < env.len(),
        env[i].0@ == key,
        forall|a: int, b: int| 0 <= a < b < env.len() ==> (#[trigger] env[a]).0@ != (#[trigger] env[b]).0@,
    ensures
        spec_env_lookup(env, key) == Some(env[i].1@),
    decreases env.len(),
{
    if i == 0 {
    } else {
        assert(env[0].0@ != env[i].0@);
        assert(env.drop_first()[i - 1] == env[i]);
        lemma_env_first_match(env.drop_first(), key, i - 1);
    }
}

} // verus!

//! Splitting a file into blocks of the configured size, however the reads happen to fall.

use vstd::prelude::*;

verus! {

/// The complete blocks of `n` bytes at the front of `s`, in order.
pub open spec fn full_blocks(s: Seq<u8>, n: nat) -> Seq<Seq<u8>>
    decreases s.len(),
{
    if n == 0 || s.len() < n {
        seq![]
    } else {
        seq![s.take(n as int)] + full_blocks(s.skip(n as int), n)
    }
}

/// What remains of `s` after its complete blocks of `n` bytes: fewer than `n` bytes.
pub open spec fn leftover(s: Seq<u8>, n: nat) -> Seq<u8>
    decreases s.len(),
{
    if n == 0 || s.len() < n {
        s
    } else {
        leftover(s.skip(n as int), n)
    }
}

/// The blocks of a whole file of contents `s`: its complete blocks, then what remains, if
/// anything.
pub open spec fn file_blocks(s: Seq<u8>, n: nat) -> Seq<Seq<u8>> {
    if leftover(s, n).len() > 0 {
        full_blocks(s, n).push(leftover(s, n))
    } else {
        full_blocks(s, n)
    }
}

/// Splitting loses and reorders nothing: the complete blocks, concatenated, followed by
/// what remains, are the bytes split; each complete block has exactly `n` bytes; fewer than
/// `n` bytes remain. So the blocks of a file, concatenated in order, are the file, and a
/// non-empty file has at least one block.
pub proof fn lemma_blocks_rebuild_bytes(s: Seq<u8>, n: nat)
    requires
        n > 0,
    ensures
        full_blocks(s, n).flatten() + leftover(s, n) == s,
        forall|i: int| 0 <= i < full_blocks(s, n).len() ==> (#[trigger] full_blocks(s, n)[i]).len() == n,
        leftover(s, n).len() < n,
        file_blocks(s, n).flatten() == s,
        forall|i: int| 0 <= i < file_blocks(s, n).len() ==> 0 < (#[trigger] file_blocks(s, n)[i]).len() <= n,
        s.len() > 0 ==> file_blocks(s, n).len() > 0,
    decreases s.len(),
{
    if s.len() >= n {
        lemma_blocks_rebuild_bytes(s.skip(n as int), n);
        let rest = full_blocks(s.skip(n as int), n);
        let fb = full_blocks(s, n);
        assert(fb.drop_first() == rest);
        assert(fb.flatten() == s.take(n as int) + rest.flatten());
        assert(s.take(n as int) + (rest.flatten() + leftover(s, n)) == s);
        assert forall|i: int| 0 <= i < fb.len() implies (#[trigger] fb[i]).len() == n by {
            if i > 0 {
                assert(fb[i] == rest[i - 1]);
            }
        }
    } else {
        assert(full_blocks(s, n).flatten() == Seq::<u8>::empty());
        assert(Seq::<u8>::empty() + s == s);
    }
    let fb = full_blocks(s, n);
    let lo = leftover(s, n);
    if lo.len() > 0 {
        fb.lemma_flatten_push(lo);
    }
    assert forall|i: int| 0 <= i < file_blocks(s, n).len() implies 0 < (
    #[trigger] file_blocks(s, n)[i]).len() <= n by {
        if i < fb.len() {
            assert(file_blocks(s, n)[i] == fb[i]);
        }
    }
    if s.len() > 0 && file_blocks(s, n).len() == 0 {
        assert(fb.flatten() == Seq::<u8>::empty());
    }
}

/// Block boundaries do not depend on how the file is read: splitting `s` and then
/// splitting what remains together with `t` gives the same blocks, and leaves the same
/// rest, as splitting `s + t` at once.
pub proof fn lemma_split_independent_of_reads(s: Seq<u8>, t: Seq<u8>, n: nat)
    requires
        n > 0,
    ensures
        full_blocks(s, n) + full_blocks(leftover(s, n) + t, n) == full_blocks(s + t, n),
        leftover(leftover(s, n) + t, n) == leftover(s + t, n),
    decreases s.len(),
{
    if s.len() >= n {
        lemma_split_independent_of_reads(s.skip(n as int), t, n);
        assert((s + t).take(n as int) == s.take(n as int));
        assert((s + t).skip(n as int) == s.skip(n as int) + t);
    } else {
        assert(full_blocks(s, n) + full_blocks(s + t, n) == full_blocks(s + t, n));
    }
}

/// The bytes of a file being read, cut into blocks of `block_size` bytes as they arrive.
/// A block size of 0 takes nothing from the file.
pub struct Chunker {
    block_size: usize,
    pending: Vec<u8>,
}

impl Chunker {
    /// The configured block size.
    pub closed spec fn block_size(&self) -> nat {
        self.block_size as nat
    }

    /// The bytes read but not yet part of a complete block.
    pub closed spec fn pending(&self) -> Seq<u8> {
        self.pending@
    }

    /// Fewer than a block's bytes wait, and none with a block size of 0.
    pub open spec fn wf(&self) -> bool {
        if self.block_size() == 0 {
            self.pending().len() == 0
        } else {
            self.pending().len() < self.block_size()
        }
    }

    /// Starts cutting a file into blocks of `block_size` bytes.
    pub fn new(block_size: usize) -> (c: Self)
        ensures
            c.block_size() == block_size,
            c.pending() == Seq::<u8>::empty(),
            c.wf(),
    {
        Chunker { block_size, pending: Vec::new() }
    }

    /// Takes the next bytes read from the file and hands out the blocks they complete, in
    /// order: with what was pending, the bytes are cut into complete blocks and a rest that
    /// stays pending. With a block size of 0 nothing is taken.
    pub fn feed(&mut self, bytes: &[u8]) -> (blocks: Vec<Vec<u8>>)
        requires
            old(self).wf(),
        ensures
            final(self).wf(),
            final(self).block_size() == old(self).block_size(),
            old(self).block_size() == 0 ==> blocks@.len() == 0 && final(self).pending()
                == old(self).pending(),
            old(self).block_size() > 0 ==> blocks.deep_view() == full_blocks(
                old(self).pending() + bytes@,
                old(self).block_size(),
            ) && final(self).pending() == leftover(
                old(self).pending() + bytes@,
                old(self).block_size(),
            ),
    {
        let mut blocks: Vec<Vec<u8>> = Vec::new();
        if self.block_size == 0 {
            return blocks;
        }
        let n = self.block_size;
        let ghost total = self.pending@ + bytes@;
        let mut all: Vec<u8> = Vec::new();
        all.append(&mut self.pending);
        for i in 0..bytes.len()
            invariant
                all@ == old(self).pending() + bytes@.take(i as int),
        {
            all.push(bytes[i]);
            assert(all@ == old(self).pending() + bytes@.take(i + 1));
        }
        assert(bytes@.take(bytes@.len() as int) == bytes@);
        assert(blocks.deep_view() + full_blocks(all@, n as nat) == full_blocks(total, n as nat));
        while all.len() >= n
            invariant
                n > 0,
                n == self.block_size,
                blocks.deep_view() + full_blocks(all@, n as nat) == full_blocks(total, n as nat),
                leftover(all@, n as nat) == leftover(total, n as nat),
            decreases all@.len(),
        {
            let ghost before = all@;
            let ghost done = blocks.deep_view();
            let rest = all.split_off(n);
            assert(all@ == before.take(n as int));
            assert(rest@ == before.skip(n as int));
            assert(all.deep_view() =~= before.take(n as int));
            let ghost prev = blocks@;
            blocks.push(all);
            assert(blocks.deep_view() =~= done.push(before.take(n as int))) by {
                assert forall|k: int| 0 <= k < done.len() implies #[trigger] blocks.deep_view()[k]
                    == done[k] by {
                    assert(blocks@[k] == prev[k]);
                }
            }
            assert(full_blocks(before, n as nat) == seq![before.take(n as int)] + full_blocks(
                rest@,
                n as nat,
            ));
            assert(done.push(before.take(n as int)) + full_blocks(rest@, n as nat) == done
                + full_blocks(before, n as nat));
            all = rest;
        }
        assert(full_blocks(all@, n as nat) == Seq::<Seq<u8>>::empty());
        assert(blocks.deep_view() == blocks.deep_view() + full_blocks(all@, n as nat));
        self.pending = all;
        blocks
    }

    /// Ends the file: the bytes still pending form its last, shorter block, if there are any.
    pub fn finish(self) -> (last: Option<Vec<u8>>)
        ensures
            self.pending().len() == 0 ==> last is None,
            self.pending().len() > 0 ==> (last matches Some(b) && b@ == self.pending()),
    {
        if self.pending.len() == 0 {
            None
        } else {
            Some(self.pending)
        }
    }
}

} // verus!

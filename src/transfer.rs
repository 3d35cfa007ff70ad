//! Copies and moves: staged by yank or cut, started by paste, and followed
//! by comparing the size of each destination with that of its source.
use vstd::prelude::*;
use crate::direntry::DirEntry;
use crate::path::{FsPath, path_text, path_to_string};
use crate::text::push_char;

verus! {

#[derive(PartialEq, Eq, Structural, Clone, Copy, Debug)]
pub enum TransferType {
    Yank,
    Cut,
}

/// A yank or cut waiting for a paste, with the cumulative size of each
/// source taken when it was staged.
pub struct PotentialTransfer {
    pub src_paths: Vec<FsPath>,
    pub src_sizes: Vec<u64>,
    pub transfer_type: TransferType,
}

/// A copy or move under way. A destination's size is kept once it has
/// matched its source's exactly.
pub struct Transfer {
    pub src_sizes: Vec<u64>,
    pub dst_paths: Vec<FsPath>,
    pub dst_sizes: Vec<Option<u64>>,
    pub transfer_type: TransferType,
}

impl PotentialTransfer {
    pub fn cut(src_paths: Vec<FsPath>, src_sizes: Vec<u64>) -> (r: PotentialTransfer)
        requires
            src_paths@.len() == src_sizes@.len(),
        ensures
            r.src_paths == src_paths,
            r.src_sizes == src_sizes,
            r.transfer_type == TransferType::Cut,
    {
        PotentialTransfer::new(src_paths, src_sizes, TransferType::Cut)
    }

    pub fn yank(src_paths: Vec<FsPath>, src_sizes: Vec<u64>) -> (r: PotentialTransfer)
        requires
            src_paths@.len() == src_sizes@.len(),
        ensures
            r.src_paths == src_paths,
            r.src_sizes == src_sizes,
            r.transfer_type == TransferType::Yank,
    {
        PotentialTransfer::new(src_paths, src_sizes, TransferType::Yank)
    }

    /// Stages the sources with their cumulative sizes.
    pub fn new(src_paths: Vec<FsPath>, src_sizes: Vec<u64>, transfer_type: TransferType) -> (r: PotentialTransfer)
        requires
            src_paths@.len() == src_sizes@.len(),
        ensures
            r.src_paths == src_paths,
            r.src_sizes == src_sizes,
            r.transfer_type == transfer_type,
    {
        PotentialTransfer { src_paths, src_sizes, transfer_type }
    }

    /// Starts the transfer towards the given destinations, none of them
    /// done yet.
    pub fn with_dst_paths(self, dst_paths: Vec<FsPath>) -> (r: Transfer)
        requires
            self.src_sizes@.len() == dst_paths@.len(),
        ensures
            r.wf(),
            r.src_sizes == self.src_sizes,
            r.dst_paths == dst_paths,
            r.transfer_type == self.transfer_type,
            forall|i: int| 0 <= i < r.dst_sizes@.len() ==> r.dst_sizes@[i] is None,
    {
        let amount = self.src_sizes.len();
        let mut dst_sizes: Vec<Option<u64>> = Vec::new();
        let mut i: usize = 0;
        while i < amount
            invariant
                i <= amount,
                dst_sizes@.len() == i,
                forall|k: int| 0 <= k < i ==> dst_sizes@[k] is None,
            decreases amount - i,
        {
            dst_sizes.push(None);
            i = i + 1;
        }
        Transfer { src_sizes: self.src_sizes, dst_paths, dst_sizes, transfer_type: self.transfer_type }
    }
}

/// A destination's size after a poll: kept once settled, else settled
/// exactly when the measured size equals the source's.
pub open spec fn settled_size(cached: Option<u64>, measured: Option<u64>, src: u64) -> Option<u64> {
    match cached {
        Some(s) => Some(s),
        None => if measured == Some(src) { Some(src) } else { None },
    }
}

/// The size a destination counts with in the progress.
pub open spec fn counted_size(cached: Option<u64>, measured: Option<u64>) -> nat {
    match cached {
        Some(s) => s as nat,
        None => match measured {
            Some(m) => m as nat,
            None => 0,
        },
    }
}

pub open spec fn sum_sizes(s: Seq<u64>) -> nat
    decreases s.len(),
{
    if s.len() == 0 { 0 } else { sum_sizes(s.drop_last()) + s.last() as nat }
}

pub open spec fn sum_counted(cached: Seq<Option<u64>>, measured: Seq<Option<u64>>) -> nat
    decreases cached.len(),
{
    if cached.len() == 0 || measured.len() < cached.len() {
        0
    } else {
        sum_counted(cached.drop_last(), measured.subrange(0, cached.len() - 1))
            + counted_size(cached.last(), measured[cached.len() - 1])
    }
}

/// A destination counts as copied exactly when its size equals the
/// source's: one byte short never does.
pub proof fn lemma_settled_iff_exact(measured: u64, src: u64)
    ensures
        settled_size(None, Some(measured), src) is Some <==> measured == src,
        src > 0 ==> settled_size(None, Some((src - 1) as u64), src) is None,
{
}

/// The largest count of bytes whose hundredfold fits in 128 bits.
pub const PERCENT_LIMIT: u128 = 3402823669209384634633746074317682114;

/// `after` is `before` polled with the measured sizes: the same transfer
/// with each destination settled exactly when its size matched.
pub open spec fn polled(before: Transfer, measured: Seq<Option<u64>>, after: Transfer) -> bool {
    &&& after.wf()
    &&& after.src_sizes == before.src_sizes
    &&& after.dst_paths == before.dst_paths
    &&& after.transfer_type == before.transfer_type
    &&& after.dst_sizes@.len() == before.dst_sizes@.len()
    &&& forall|i: int| 0 <= i < after.dst_sizes@.len() ==> #[trigger] after.dst_sizes@[i] == settled_size(
        before.dst_sizes@[i], measured[i], before.src_sizes@[i])
}

/// The transfers that still have a destination to settle, in order.
pub open spec fn unfinished(ts: Seq<Transfer>) -> Seq<Transfer>
    decreases ts.len(),
{
    if ts.len() == 0 {
        Seq::empty()
    } else if Transfer::all_settled(ts.last().dst_sizes@) {
        unfinished(ts.drop_last())
    } else {
        unfinished(ts.drop_last()).push(ts.last())
    }
}

/// The share of a transfer's bytes that arrived, in whole percent, cut
/// rather than rounded: 100 for nothing to copy, and the largest number
/// where the count overflows.
pub open spec fn progress_percentage(t: Transfer, measured: Seq<Option<u64>>) -> int {
    if sum_sizes(t.src_sizes@) == 0 {
        100
    } else if 100 * sum_counted(t.dst_sizes@, measured) <= u128::MAX {
        (100 * sum_counted(t.dst_sizes@, measured) / sum_sizes(t.src_sizes@)) as int
    } else {
        u128::MAX as int
    }
}

/// What one poll of a transfer found.
pub struct Progress {
    pub done: bool,
    pub percentage: u128,
}

impl Transfer {
    pub open spec fn wf(&self) -> bool {
        self.src_sizes@.len() == self.dst_paths@.len() && self.dst_sizes@.len() == self.src_sizes@.len()
    }

    /// Whether every destination has matched its source.
    pub open spec fn all_settled(sizes: Seq<Option<u64>>) -> bool {
        forall|i: int| 0 <= i < sizes.len() ==> sizes[i] is Some
    }

    /// Takes in the measured sizes of the destinations (needed only where
    /// none is kept yet): a destination whose size equals its source's is
    /// settled. Reports whether all are, and the share of the bytes
    /// arrived, in whole percent.
    pub fn poll(&mut self, measured: &Vec<Option<u64>>) -> (r: Progress)
        requires
            old(self).wf(),
            measured@.len() == old(self).dst_sizes@.len(),
        ensures
            polled(*old(self), measured@, *final(self)),
            final(self).wf(),
            final(self).src_sizes == old(self).src_sizes,
            final(self).dst_paths == old(self).dst_paths,
            final(self).transfer_type == old(self).transfer_type,
            forall|i: int| 0 <= i < final(self).dst_sizes@.len() ==> #[trigger] final(self).dst_sizes@[i] == settled_size(
                old(self).dst_sizes@[i], measured@[i], old(self).src_sizes@[i]),
            r.done == Transfer::all_settled(final(self).dst_sizes@),
            r.percentage == progress_percentage(*old(self), measured@),
    {
        let n = self.dst_sizes.len();
        let mut src_total: u128 = 0;
        let mut dst_total: u128 = 0;
        let mut all_done = true;
        let mut i: usize = 0;
        let ghost old_dst = self.dst_sizes@;
        while i < n
            invariant
                n == self.dst_sizes@.len(),
                self.wf(),
                old_dst.len() == n,
                measured@.len() == n,
                i <= n,
                self.src_sizes == old(self).src_sizes,
                self.dst_paths == old(self).dst_paths,
                self.transfer_type == old(self).transfer_type,
                old_dst == old(self).dst_sizes@,
                forall|k: int| 0 <= k < i ==> #[trigger] self.dst_sizes@[k] == settled_size(old_dst[k], measured@[k], self.src_sizes@[k]),
                forall|k: int| i <= k < n ==> #[trigger] self.dst_sizes@[k] == old_dst[k],
                all_done == Transfer::all_settled(self.dst_sizes@.subrange(0, i as int)),
                src_total == sum_sizes(self.src_sizes@.subrange(0, i as int)),
                dst_total == sum_counted(old_dst.subrange(0, i as int), measured@.subrange(0, i as int)),
                src_total <= i * 18446744073709551615u128,
                dst_total <= i * 18446744073709551615u128,
            decreases n - i,
        {
            let ghost pre = self.dst_sizes@;
            let src = self.src_sizes[i];
            let size: u64 = match self.dst_sizes[i] {
                Some(s) => s,
                None => match measured[i] {
                    Some(m) => m,
                    None => 0,
                },
            };
            if self.dst_sizes[i].is_none() && measured[i] == Some(src) {
                self.dst_sizes.set(i, Some(src));
            }
            if self.dst_sizes[i].is_none() {
                all_done = false;
            }
            proof {
                assert(self.dst_sizes@.subrange(0, i as int) =~= pre.subrange(0, i as int));
                assert(self.src_sizes@.subrange(0, i + 1).drop_last() =~= self.src_sizes@.subrange(0, i as int));
                assert(old_dst.subrange(0, i + 1).drop_last() =~= old_dst.subrange(0, i as int));
                assert(measured@.subrange(0, i + 1).subrange(0, i as int) =~= measured@.subrange(0, i as int));
                assert(Transfer::all_settled(self.dst_sizes@.subrange(0, i + 1)) == (Transfer::all_settled(
                    self.dst_sizes@.subrange(0, i as int)) && self.dst_sizes@[i as int] is Some)) by {
                    let a = self.dst_sizes@.subrange(0, i + 1);
                    let b = self.dst_sizes@.subrange(0, i as int);
                    if Transfer::all_settled(b) && self.dst_sizes@[i as int] is Some {
                        assert forall|k: int| 0 <= k < i + 1 implies a[k] is Some by {
                            if k < i {
                                assert(a[k] == b[k]);
                            }
                        }
                    }
                    if Transfer::all_settled(a) {
                        assert forall|k: int| 0 <= k < i implies self.dst_sizes@.subrange(0, i as int)[k] is Some by {
                            assert(a[k] is Some);
                        }
                        assert(a[i as int] is Some);
                    }
                }
                assert((i + 1) * 18446744073709551615u128 == i * 18446744073709551615u128 + 18446744073709551615u128)
                    by (nonlinear_arith);
            }
            src_total = src_total + src as u128;
            dst_total = dst_total + size as u128;
            i = i + 1;
        }
        proof {
            assert(self.dst_sizes@.subrange(0, n as int) =~= self.dst_sizes@);
            assert(self.src_sizes@.subrange(0, n as int) =~= self.src_sizes@);
            assert(old_dst.subrange(0, n as int) =~= old_dst);
            assert(measured@.subrange(0, n as int) =~= measured@);
        }
        let percentage: u128 = if src_total == 0 {
            100
        } else if dst_total <= PERCENT_LIMIT {
            100 * dst_total / src_total
        } else {
            u128::MAX
        };
        Progress { done: all_done, percentage }
    }
}

/// A name with `k` underscores appended.
pub open spec fn underscored(name: Seq<char>, k: nat) -> Seq<char>
    decreases k,
{
    if k == 0 { name } else { underscored(name, (k - 1) as nat).push('_') }
}

/// Whether one of the texts is `name`.
pub open spec fn name_taken(taken: Seq<String>, name: Seq<char>) -> bool {
    exists|i: int| 0 <= i < taken.len() && #[trigger] taken[i]@ == name
}

/// The names of the entries, in order.
pub fn names_of(entries: &Vec<DirEntry>) -> (r: Vec<String>)
    ensures
        r@.len() == entries@.len(),
        forall|k: int| 0 <= k < r@.len() ==> (#[trigger] r@[k])@ == entries@[k].name@,
{
    let mut r: Vec<String> = Vec::new();
    let mut k: usize = 0;
    while k < entries.len()
        invariant
            k <= entries@.len(),
            r@.len() == k,
            forall|m: int| 0 <= m < k ==> (#[trigger] r@[m])@ == entries@[m].name@,
        decreases entries@.len() - k,
    {
        r.push(crate::text::copy_of(entries[k].name.as_str()));
        k = k + 1;
    }
    r
}

fn is_taken(taken: &Vec<String>, name: &str) -> (r: bool)
    ensures
        r == name_taken(taken@, name@),
{
    let mut i: usize = 0;
    while i < taken.len()
        invariant
            i <= taken@.len(),
            forall|k: int| 0 <= k < i ==> taken@[k]@ != name@,
        decreases taken@.len() - i,
    {
        if crate::text::same_text(taken[i].as_str(), name) {
            return true;
        }
        i = i + 1;
    }
    false
}

/// The name that a pasted item gets: its own, with `_` appended as often
/// as it takes to differ from every name already taken.
pub fn destination_name(name: &str, taken: &Vec<String>) -> (r: String)
    ensures
        exists|k: nat| {
            &&& r@ == underscored(name@, k)
            &&& !name_taken(taken@, r@)
            &&& forall|j: nat| j < k ==> name_taken(taken@, #[trigger] underscored(name@, j))
        },
{
    let mut longest: usize = 0;
    let mut i: usize = 0;
    while i < taken.len()
        invariant
            i <= taken@.len(),
            forall|k: int| 0 <= k < i ==> taken@[k]@.len() <= longest,
        decreases taken@.len() - i,
    {
        let l = crate::text::chars_amount(taken[i].as_str());
        if l > longest {
            longest = l;
        }
        i = i + 1;
    }
    let mut dst = crate::text::copy_of(name);
    let ghost mut k: nat = 0;
    while is_taken(taken, dst.as_str())
        invariant
            forall|m: int| 0 <= m < taken@.len() ==> taken@[m]@.len() <= longest,
            dst@ == underscored(name@, k),
            forall|j: nat| j < k ==> name_taken(taken@, #[trigger] underscored(name@, j)),
        decreases longest + 1 - dst@.len(),
    {
        let ghost before = dst@;
        proof {
            let m = choose|m: int| 0 <= m < taken@.len() && taken@[m]@ == dst@;
            assert(dst@.len() <= longest);
        }
        push_char(&mut dst, '_');
        proof {
            assert(name_taken(taken@, underscored(name@, k)));
            k = k + 1;
            assert forall|j: nat| j < k implies name_taken(taken@, #[trigger] underscored(name@, j)) by {
                if j + 1 == k {
                    assert(underscored(name@, j) == before);
                }
            }
        }
    }
    dst
}

/// The source as the copy or move command takes it: a directory is
/// copied by its contents (`/.` appended) and moved by itself (`/`
/// appended).
pub open spec fn source_text(src: Seq<Seq<char>>, is_dir: bool, transfer_type: TransferType) -> Seq<char> {
    if !is_dir {
        path_text(src)
    } else {
        match transfer_type {
            TransferType::Cut => path_text(src).push('/'),
            TransferType::Yank => path_text(src).push('/').push('.'),
        }
    }
}

/// The source argument for the copy or move command.
pub fn source_argument(src: &FsPath, is_dir: bool, transfer_type: TransferType) -> (r: String)
    ensures
        r@ == source_text(src@, is_dir, transfer_type),
{
    let mut s = path_to_string(src);
    if is_dir {
        push_char(&mut s, '/');
        if transfer_type == TransferType::Yank {
            push_char(&mut s, '.');
        }
    }
    s
}

} // verus!

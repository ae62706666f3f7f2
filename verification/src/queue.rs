//! The queue scheduler: pending and active job sets under a concurrency
//! cap, FIFO dispatch, snapshots, cancellation, and the application of the
//! extraction tool's output to a running job's record.
//!
//! Records live in an arena that only grows; the registry, the pending
//! queue and the active set hold arena indices. Arena order is submission
//! order, so index order is the dispatch order. Cancellation removes a job
//! from the registry; a cancelled job that was already running keeps its
//! detached record until its process ends, without affecting listings.

use vstd::prelude::*;
use crate::download_item::{
    is_running, is_terminal, AudioFormat, DownloadItem, DownloadStatus, Quality,
};
use crate::downloader::{failure_message, spec_failure_message, Downloader};
use crate::tool_output::{
    line_progress, line_signals_conversion, line_title, parse_progress, parse_title,
    signals_conversion,
};
use crate::text::{
    dec_rep, lemma_dec_rep_injective, split_lines, split_newlines, str_eq, u64_to_string,
};
use crate::validator::{invalid_urls_message, invalid_urls_of, valid_urls_of, validate_urls};

verus! {

/// A job's identifier carries the job's arena position in decimal after a
/// fixed-length random prefix, which makes identifiers structurally unique.
pub open spec fn id_tags_index(id: Seq<char>, i: int) -> bool {
    id.len() == 37 + dec_rep(i).len() && id.subrange(37, id.len() as int) == dec_rep(i)
}

proof fn lemma_id_distinct(id1: Seq<char>, i1: int, id2: Seq<char>, i2: int)
    requires
        id_tags_index(id1, i1),
        id_tags_index(id2, i2),
        0 <= i1,
        0 <= i2,
        i1 != i2,
    ensures
        id1 != id2,
{
    if id1 == id2 {
        assert(dec_rep(i1) == dec_rep(i2));
        lemma_dec_rep_injective(i1, i2);
    }
}

/// The sequence with every occurrence of `index` removed, order kept.
pub open spec fn without_index(s: Seq<usize>, index: usize) -> Seq<usize>
    decreases s.len(),
{
    if s.len() == 0 {
        Seq::empty()
    } else if s.last() == index {
        without_index(s.drop_last(), index)
    } else {
        without_index(s.drop_last(), index).push(s.last())
    }
}

proof fn lemma_without_index_len(s: Seq<usize>, index: usize)
    ensures
        without_index(s, index).len() <= s.len(),
    decreases s.len(),
{
    if s.len() > 0 {
        lemma_without_index_len(s.drop_last(), index);
    }
}

proof fn lemma_without_index_members(s: Seq<usize>, index: usize, k: int)
    requires
        0 <= k < without_index(s, index).len(),
    ensures
        s.contains(without_index(s, index)[k]),
        without_index(s, index)[k] != index,
    decreases s.len(),
{
    if s.len() > 0 {
        let rest = without_index(s.drop_last(), index);
        if s.last() != index && k == without_index(s, index).len() - 1 {
            assert(s.contains(s.last())) by {
                assert(s[s.len() - 1] == s.last());
            }
        } else {
            lemma_without_index_members(s.drop_last(), index, k);
            let x = rest[k];
            let w = choose|w: int| 0 <= w < s.drop_last().len() && s.drop_last()[w] == x;
            assert(s[w] == x);
        }
    }
}

proof fn lemma_without_index_keeps(s: Seq<usize>, index: usize, w: int)
    requires
        0 <= w < s.len(),
        s[w] != index,
    ensures
        without_index(s, index).contains(s[w]),
    decreases s.len(),
{
    if w == s.len() - 1 {
        let out = without_index(s, index);
        assert(out.last() == s.last());
        assert(out[out.len() - 1] == s[w]);
    } else {
        lemma_without_index_keeps(s.drop_last(), index, w);
        let out0 = without_index(s.drop_last(), index);
        let u = choose|u: int| 0 <= u < out0.len() && out0[u] == s[w];
        if s.last() == index {
        } else {
            assert(without_index(s, index)[u] == s[w]);
        }
    }
}

/// What the scheduler hands out when it promotes a job: the job's arena
/// index and the request fields the runner needs.
pub struct DispatchTicket {
    pub index: usize,
    pub url: String,
    pub format: AudioFormat,
    pub quality: Quality,
}

/// The scheduler's state.
pub struct DownloadQueue {
    /// Every record ever created, in submission order; never shrinks.
    pub jobs: Vec<DownloadItem>,
    /// Indices of the listed jobs, in submission order; cancellation
    /// removes entries.
    pub registry: Vec<usize>,
    /// Indices of the jobs waiting for a slot, in submission order.
    pub pending: Vec<usize>,
    /// Indices of the jobs currently holding a slot.
    pub active: Vec<usize>,
    /// The concurrency cap, fixed at construction.
    pub max_concurrent: usize,
    /// Builds the tool invocation for dispatched jobs.
    pub downloader: Downloader,
}

impl DownloadQueue {
    /// The scheduler's invariant: indices in range, pending and registry in
    /// strict submission order, pending jobs queued, running jobs holding
    /// one of at most `max_concurrent` slots, every record well formed, and
    /// identifiers unique across the arena.
    pub open spec fn wf(self) -> bool {
        &&& forall|k: int|
            0 <= k < self.pending@.len() ==> (#[trigger] self.pending@[k]) < self.jobs@.len()
        &&& forall|k1: int, k2: int|
            0 <= k1 < k2 < self.pending@.len() ==> self.pending@[k1] < self.pending@[k2]
        &&& forall|k: int|
            0 <= k < self.pending@.len() ==> self.jobs@[#[trigger] self.pending@[k] as int].status
                == DownloadStatus::Queued
        &&& forall|k: int|
            0 <= k < self.active@.len() ==> (#[trigger] self.active@[k]) < self.jobs@.len()
        &&& self.active@.len() <= self.max_concurrent
        &&& forall|i: int|
            0 <= i < self.jobs@.len() && is_running(#[trigger] self.jobs@[i].status)
                ==> self.active@.contains(i as usize)
        &&& forall|i: int| 0 <= i < self.jobs@.len() ==> (#[trigger] self.jobs@[i]).wf()
        &&& forall|i1: int, i2: int|
            0 <= i1 < i2 < self.jobs@.len() ==> self.jobs@[i1].id@ != self.jobs@[i2].id@
        &&& forall|i: int|
            0 <= i < self.jobs@.len() ==> id_tags_index((#[trigger] self.jobs@[i]).id@, i)
        &&& forall|k1: int, k2: int|
            0 <= k1 < k2 < self.registry@.len() ==> self.registry@[k1] < self.registry@[k2]
        &&& forall|k: int|
            0 <= k < self.registry@.len() ==> (#[trigger] self.registry@[k]) < self.jobs@.len()
    }

    /// An identifier occurs among the listed jobs.
    pub open spec fn spec_listed_id(self, id: Seq<char>) -> bool {
        exists|k: int|
            0 <= k < self.registry@.len() && self.jobs@[#[trigger] self.registry@[k] as int].id@
                == id
    }

    /// An empty scheduler with the given concurrency cap.
    pub fn new(max_concurrent: usize) -> (r: Self)
        ensures
            r.wf(),
            r.jobs@.len() == 0,
            r.registry@.len() == 0,
            r.pending@.len() == 0,
            r.active@.len() == 0,
            r.max_concurrent == max_concurrent,
    {
        DownloadQueue {
            jobs: Vec::new(),
            registry: Vec::new(),
            pending: Vec::new(),
            active: Vec::new(),
            max_concurrent,
            downloader: Downloader::new(),
        }
    }

    /// Creates a record for the request, appends it to the registry and the
    /// pending queue, and returns its identifier, which differs from every
    /// identifier already in the arena.
    pub fn add_item(&mut self, url: String, format: AudioFormat, quality: Quality) -> (id:
        String)
        requires
            old(self).wf(),
        ensures
            final(self).wf(),
            final(self).jobs@.len() == old(self).jobs@.len() + 1,
            forall|i: int|
                0 <= i < old(self).jobs@.len() ==> final(self).jobs@[i] == old(self).jobs@[i],
            ({
                let it = final(self).jobs@.last();
                &&& it.url == url
                &&& it.format == format
                &&& it.quality == quality
                &&& it.status == DownloadStatus::Queued
                &&& it.progress == 0
                &&& it.title is None
                &&& it.error is None
                &&& it.id@ == id@
            }),
            forall|i: int|
                0 <= i < old(self).jobs@.len() ==> (#[trigger] old(self).jobs@[i]).id@ != id@,
            final(self).registry@ == old(self).registry@.push(old(self).jobs@.len() as usize),
            final(self).pending@ == old(self).pending@.push(old(self).jobs@.len() as usize),
            final(self).active == old(self).active,
            final(self).max_concurrent == old(self).max_concurrent,
            final(self).downloader == old(self).downloader,
    {
        let index = self.jobs.len();
        let mut item = DownloadItem::new(url, format, quality);
        item.id.append("-");
        let suffix = u64_to_string(index as u64);
        item.id.append(suffix.as_str());
        proof {
            reveal_strlit("-");
            assert(index as u64 as int == index as int);
            assert(item.id@.subrange(37, item.id@.len() as int) =~= dec_rep(index as int));
            assert(id_tags_index(item.id@, index as int));
            assert forall|i: int| 0 <= i < old(self).jobs@.len() implies (#[trigger] old(
                self,
            ).jobs@[i]).id@ != item.id@ by {
                lemma_id_distinct(old(self).jobs@[i].id@, i, item.id@, index as int);
            }
        }
        let id = item.id.clone();
        self.jobs.push(item);
        self.registry.push(index);
        self.pending.push(index);
        id
    }

    /// A point-in-time copy of every listed job's record, in submission
    /// order.
    pub fn get_all_items(&self) -> (r: Vec<DownloadItem>)
        requires
            self.wf(),
        ensures
            r@.len() == self.registry@.len(),
            forall|k: int|
                0 <= k < r@.len() ==> r@[k] == self.jobs@[#[trigger] self.registry@[k] as int],
    {
        let mut out: Vec<DownloadItem> = Vec::new();
        let mut k: usize = 0;
        while k < self.registry.len()
            invariant
                self.wf(),
                k <= self.registry@.len(),
                out@.len() == k,
                forall|j: int|
                    0 <= j < k ==> out@[j] == self.jobs@[#[trigger] self.registry@[j] as int],
            decreases self.registry@.len() - k,
        {
            let idx = self.registry[k];
            out.push(self.jobs[idx].clone());
            k += 1;
        }
        out
    }

    /// Submits a multi-line block of URLs: each non-empty line, trimmed,
    /// must be a valid watch-page URL. On success every URL becomes one
    /// queued job, in line order, and their identifiers come back in that
    /// order. On any invalid line, or when nothing valid remains, an error
    /// describes the rejection and no job is created.
    pub fn add_download(&mut self, urls_text: &str, format: AudioFormat, quality: Quality) -> (r:
        Result<Vec<String>, String>)
        requires
            old(self).wf(),
        ensures
            final(self).wf(),
            match r {
                Err(m) => {
                    let lines = split_newlines(urls_text@);
                    &&& *final(self) == *old(self)
                    &&& (invalid_urls_of(lines).len() > 0 || valid_urls_of(lines).len() == 0)
                    &&& (invalid_urls_of(lines).len() > 0 ==> m@ == invalid_urls_message(
                        invalid_urls_of(lines),
                    ))
                    &&& (invalid_urls_of(lines).len() == 0 ==> m@ == "No valid URLs provided"@)
                },
                Ok(ids) => {
                    let lines = split_newlines(urls_text@);
                    let vs = valid_urls_of(lines);
                    &&& invalid_urls_of(lines).len() == 0
                    &&& vs.len() > 0
                    &&& ids.deep_view().len() == vs.len()
                    &&& final(self).jobs@.len() == old(self).jobs@.len() + vs.len()
                    &&& forall|i: int|
                        0 <= i < old(self).jobs@.len() ==> final(self).jobs@[i] == old(
                            self,
                        ).jobs@[i]
                    &&& forall|k: int|
                        0 <= k < vs.len() ==> {
                            let it = #[trigger] final(self).jobs@[old(self).jobs@.len() + k];
                            &&& it.url@ == vs[k]
                            &&& it.format == format
                            &&& it.quality == quality
                            &&& it.status == DownloadStatus::Queued
                            &&& it.progress == 0
                            &&& it.title is None
                            &&& it.error is None
                            &&& it.id@ == ids.deep_view()[k]
                        }
                    &&& final(self).registry@.len() == old(self).registry@.len() + vs.len()
                    &&& forall|k: int|
                        0 <= k < old(self).registry@.len() ==> final(self).registry@[k] == old(
                            self,
                        ).registry@[k]
                    &&& forall|k: int|
                        0 <= k < vs.len() ==> (#[trigger] final(self).registry@[old(
                            self,
                        ).registry@.len() + k]) as int == old(self).jobs@.len() + k
                    &&& final(self).pending@.len() == old(self).pending@.len() + vs.len()
                    &&& forall|k: int|
                        0 <= k < old(self).pending@.len() ==> final(self).pending@[k] == old(
                            self,
                        ).pending@[k]
                    &&& forall|k: int|
                        0 <= k < vs.len() ==> (#[trigger] final(self).pending@[old(
                            self,
                        ).pending@.len() + k]) as int == old(self).jobs@.len() + k
                    &&& final(self).active == old(self).active
                    &&& final(self).max_concurrent == old(self).max_concurrent
                    &&& final(self).downloader == old(self).downloader
                },
            },
    {
        let segments = split_lines(urls_text);
        let valid = match validate_urls(segments) {
            Ok(v) => v,
            Err(m) => {
                return Err(m);
            },
        };
        let ghost vs = valid_urls_of(split_newlines(urls_text@));
        let mut ids: Vec<String> = Vec::new();
        let mut i: usize = 0;
        while i < valid.len()
            invariant
                self.wf(),
                i <= valid@.len(),
                valid.deep_view() == vs,
                valid.deep_view().len() == valid@.len(),
                forall|k: int| 0 <= k < valid@.len() ==> valid.deep_view()[k] == valid@[k]@,
                ids.deep_view().len() == i as int,
                self.jobs@.len() == old(self).jobs@.len() + i,
                forall|k: int|
                    0 <= k < old(self).jobs@.len() ==> self.jobs@[k] == old(self).jobs@[k],
                forall|k: int|
                    0 <= k < i ==> {
                        let it = #[trigger] self.jobs@[old(self).jobs@.len() + k];
                        &&& it.url@ == vs[k]
                        &&& it.format == format
                        &&& it.quality == quality
                        &&& it.status == DownloadStatus::Queued
                        &&& it.progress == 0
                        &&& it.title is None
                        &&& it.error is None
                        &&& it.id@ == ids.deep_view()[k]
                    },
                self.registry@.len() == old(self).registry@.len() + i,
                forall|k: int|
                    0 <= k < old(self).registry@.len() ==> self.registry@[k] == old(
                        self,
                    ).registry@[k],
                forall|k: int|
                    0 <= k < i ==> (#[trigger] self.registry@[old(self).registry@.len() + k])
                        as int == old(self).jobs@.len() + k,
                self.pending@.len() == old(self).pending@.len() + i,
                forall|k: int|
                    0 <= k < old(self).pending@.len() ==> self.pending@[k] == old(
                        self,
                    ).pending@[k],
                forall|k: int|
                    0 <= k < i ==> (#[trigger] self.pending@[old(self).pending@.len() + k])
                        as int == old(self).jobs@.len() + k,
                self.active == old(self).active,
                self.max_concurrent == old(self).max_concurrent,
                self.downloader == old(self).downloader,
            decreases valid@.len() - i,
        {
            let url = valid[i].clone();
            proof {
                assert(url@ == vs[i as int]);
            }
            let ghost ids_pre = ids.deep_view();
            let id = self.add_item(url, format, quality);
            ids.push(id);
            let jl = self.jobs.len();
            proof {
                assert(ids.deep_view() =~= ids_pre.push(ids@[i as int]@));
                assert(self.jobs@.len() == jl as int);
                assert(self.registry@[old(self).registry@.len() + i as int] as int == old(
                    self,
                ).jobs@.len() + i as int);
                assert(self.pending@[old(self).pending@.len() + i as int] as int == old(
                    self,
                ).jobs@.len() + i as int);
            }
            i += 1;
        }
        Ok(ids)
    }

    /// Cancels the listed job with this identifier: removes it from the
    /// registry and the pending queue and, unless it had already ended,
    /// marks it Cancelled. Returns whether such a job was listed; once
    /// cancelled, the identifier is listed no longer, so a second call
    /// returns false.
    pub fn remove_item(&mut self, id: &str) -> (r: bool)
        requires
            old(self).wf(),
        ensures
            final(self).wf(),
            r == old(self).spec_listed_id(id@),
            !r ==> *final(self) == *old(self),
            r ==> !final(self).spec_listed_id(id@),
            final(self).jobs@.len() == old(self).jobs@.len(),
            final(self).active == old(self).active,
            final(self).max_concurrent == old(self).max_concurrent,
            final(self).downloader == old(self).downloader,
            forall|k: int|
                0 <= k < old(self).registry@.len() && old(self).jobs@[#[trigger] old(
                    self,
                ).registry@[k] as int].id@ == id@ ==> {
                    let j = old(self).registry@[k] as int;
                    &&& final(self).registry@ == old(self).registry@.remove(k)
                    &&& (is_terminal(old(self).jobs@[j].status) ==> final(self).jobs@ == old(
                        self,
                    ).jobs@)
                    &&& (!is_terminal(old(self).jobs@[j].status) ==> final(self).jobs@ == old(
                        self,
                    ).jobs@.update(
                        j,
                        (DownloadItem { status: DownloadStatus::Cancelled, ..old(self).jobs@[j] }),
                    ))
                    &&& (forall|p: int|
                        0 <= p < old(self).pending@.len() && (#[trigger] old(
                            self,
                        ).pending@[p]) as int == j ==> final(self).pending@ == old(
                            self,
                        ).pending@.remove(p))
                    &&& (!old(self).pending@.contains(j as usize) ==> final(self).pending == old(
                        self,
                    ).pending)
                },
    {
        let mut k: usize = 0;
        while k < self.registry.len()
            invariant
                old(self).wf(),
                *self == *old(self),
                k <= self.registry@.len(),
                forall|k2: int|
                    0 <= k2 < k ==> self.jobs@[#[trigger] self.registry@[k2] as int].id@ != id@,
            decreases self.registry@.len() - k,
        {
            let j = self.registry[k];
            if str_eq(self.jobs[j].id.as_str(), id) {
                self.registry.remove(k);
                let st = self.jobs[j].status;
                if !(st == DownloadStatus::Completed || st == DownloadStatus::Failed || st
                    == DownloadStatus::Cancelled) {
                    self.jobs[j].update_status(DownloadStatus::Cancelled);
                }
                match find_index(&self.pending, j) {
                    Some(p) => {
                        self.pending.remove(p);
                        proof {
                            assert forall|q: int|
                                0 <= q < old(self).pending@.len() && (#[trigger] old(
                                    self,
                                ).pending@[q]) == j implies q == p as int by {
                                if q != p as int {
                                    // pending is strictly sorted, so the index occurs once
                                    if q < p as int {
                                        assert(old(self).pending@[q] < old(self).pending@[p as int]);
                                    } else {
                                        assert(old(self).pending@[p as int] < old(self).pending@[q]);
                                    }
                                }
                            }
                        }
                    },
                    None => {},
                }
                proof {
                    let jj = j as int;
                    assert forall|k2: int|
                        0 <= k2 < self.registry@.len() implies self.jobs@[#[trigger] self.registry@[k2] as int].id@ != id@ by {
                        let r0 = old(self).registry@;
                        let idx = if k2 < k as int {
                            r0[k2]
                        } else {
                            r0[k2 + 1]
                        };
                        assert(self.registry@[k2] == idx);
                        if idx as int != jj {
                            assert(old(self).jobs@[idx as int].id@ != old(self).jobs@[jj].id@);
                        } else {
                            // distinct positions in a strictly sorted registry hold
                            // distinct indices
                            if k2 < k as int {
                                assert(r0[k2] < r0[k as int]);
                            } else {
                                assert(r0[k as int] < r0[k2 + 1]);
                            }
                        }
                    }
                }
                return true;
            }
            k += 1;
        }
        false
    }

    /// Promotes the longest-waiting pending job when a slot is free: pops
    /// the front of the pending queue, marks the job Downloading, adds it
    /// to the active set and hands back what the runner needs. The promoted
    /// job was submitted no later than any other pending job.
    pub fn dispatch_next(&mut self) -> (r: Option<DispatchTicket>)
        requires
            old(self).wf(),
        ensures
            final(self).wf(),
            match r {
                Some(t) => {
                    &&& old(self).active@.len() < old(self).max_concurrent
                    &&& old(self).pending@.len() > 0
                    &&& t.index == old(self).pending@[0]
                    &&& forall|k: int|
                        0 <= k < old(self).pending@.len() ==> t.index <= #[trigger] old(
                            self,
                        ).pending@[k]
                    &&& t.url == old(self).jobs@[t.index as int].url
                    &&& t.format == old(self).jobs@[t.index as int].format
                    &&& t.quality == old(self).jobs@[t.index as int].quality
                    &&& old(self).jobs@[t.index as int].status == DownloadStatus::Queued
                    &&& final(self).jobs@ == old(self).jobs@.update(
                        t.index as int,
                        (DownloadItem {
                            status: DownloadStatus::Downloading,
                            ..old(self).jobs@[t.index as int]
                        }),
                    )
                    &&& final(self).pending@ == old(self).pending@.remove(0)
                    &&& final(self).active@ == old(self).active@.push(t.index)
                    &&& final(self).registry == old(self).registry
                    &&& final(self).max_concurrent == old(self).max_concurrent
                    &&& final(self).downloader == old(self).downloader
                },
                None => {
                    &&& (old(self).active@.len() >= old(self).max_concurrent || old(
                        self,
                    ).pending@.len() == 0)
                    &&& *final(self) == *old(self)
                },
            },
    {
        if self.active.len() < self.max_concurrent && self.pending.len() > 0 {
            let j = self.pending.remove(0);
            self.active.push(j);
            self.jobs[j].update_status(DownloadStatus::Downloading);
            let t = DispatchTicket {
                index: j,
                url: self.jobs[j].url.clone(),
                format: self.jobs[j].format,
                quality: self.jobs[j].quality,
            };
            proof {
                assert forall|k: int|
                    0 <= k < self.pending@.len() implies self.jobs@[#[trigger] self.pending@[k] as int].status
                    == DownloadStatus::Queued by {
                    assert(old(self).pending@[k + 1] == self.pending@[k]);
                    assert(old(self).pending@[0] < old(self).pending@[k + 1]);
                }
                assert(self.active@[self.active@.len() - 1] == j);
                assert forall|i2: int|
                    0 <= i2 < self.jobs@.len() && is_running(
                        (#[trigger] self.jobs@[i2]).status,
                    ) implies self.active@.contains(i2 as usize) by {
                    if i2 != j as int {
                        assert(is_running(old(self).jobs@[i2].status));
                        assert(old(self).active@.contains(i2 as usize));
                        let w = choose|w: int|
                            0 <= w < old(self).active@.len() && old(self).active@[w] == i2
                                as usize;
                        assert(self.active@[w] == i2 as usize);
                    } else {
                        assert(self.active@[self.active@.len() - 1] == j);
                    }
                }
            }
            Some(t)
        } else {
            None
        }
    }

    /// Applies one line of the tool's output to a running job: a recognized
    /// title is stored, a recognized percentage advances progress but never
    /// lowers it, and a conversion marker moves the job to Converting. On a
    /// job that is not running the line has no effect; in particular a
    /// record that already ended, or was cancelled, never changes again.
    pub fn apply_output_line(&mut self, index: usize, line: &str)
        requires
            old(self).wf(),
        ensures
            final(self).wf(),
            final(self).registry == old(self).registry,
            final(self).pending == old(self).pending,
            final(self).active == old(self).active,
            final(self).max_concurrent == old(self).max_concurrent,
            final(self).downloader == old(self).downloader,
            final(self).jobs@.len() == old(self).jobs@.len(),
            (index as int >= old(self).jobs@.len() || !is_running(
                old(self).jobs@[index as int].status,
            )) ==> *final(self) == *old(self),
            (index as int) < old(self).jobs@.len() && is_running(
                old(self).jobs@[index as int].status,
            ) ==> {
                let j0 = old(self).jobs@[index as int];
                let j1 = final(self).jobs@[index as int];
                &&& final(self).jobs@ == old(self).jobs@.update(index as int, j1)
                &&& j1.id == j0.id
                &&& j1.url == j0.url
                &&& j1.format == j0.format
                &&& j1.quality == j0.quality
                &&& j1.error == j0.error
                &&& (line_title(line@) matches Some(t) ==> (j1.title matches Some(s) && s@ == t))
                &&& (line_title(line@) is None ==> j1.title == j0.title)
                &&& (line_progress(line@) matches Some(p) ==> j1.progress == (if p
                    > j0.progress as int {
                    p
                } else {
                    j0.progress as int
                }))
                &&& (line_progress(line@) is None ==> j1.progress == j0.progress)
                &&& j1.progress >= j0.progress
                &&& j1.status == (if line_signals_conversion(line@) {
                    DownloadStatus::Converting
                } else {
                    j0.status
                })
            },
    {
        if index >= self.jobs.len() {
            return ;
        }
        let st = self.jobs[index].status;
        if !(st == DownloadStatus::Downloading || st == DownloadStatus::Converting) {
            return ;
        }
        match parse_title(line) {
            Some(t) => self.jobs[index].set_title(t),
            None => {},
        }
        match parse_progress(line) {
            Some(p) => {
                if p > self.jobs[index].progress {
                    self.jobs[index].update_progress(p);
                }
            },
            None => {},
        }
        if signals_conversion(line) {
            self.jobs[index].update_status(DownloadStatus::Converting);
        }
    }

    /// Records the tool's exit for a job and frees its slot: on success the
    /// job completes with full progress; otherwise it fails with a message
    /// naming the exit code. A job that is not running — cancelled while
    /// active, say — keeps its record, but its slot is still freed.
    pub fn finish_job(&mut self, index: usize, success: bool, exit_code: Option<i32>)
        requires
            old(self).wf(),
        ensures
            final(self).wf(),
            final(self).registry == old(self).registry,
            final(self).pending == old(self).pending,
            final(self).max_concurrent == old(self).max_concurrent,
            final(self).downloader == old(self).downloader,
            final(self).jobs@.len() == old(self).jobs@.len(),
            final(self).active@ == without_index(old(self).active@, index),
            (index as int >= old(self).jobs@.len() || !is_running(
                old(self).jobs@[index as int].status,
            )) ==> final(self).jobs == old(self).jobs,
            (index as int) < old(self).jobs@.len() && is_running(
                old(self).jobs@[index as int].status,
            ) ==> {
                let j0 = old(self).jobs@[index as int];
                let j1 = final(self).jobs@[index as int];
                &&& final(self).jobs@ == old(self).jobs@.update(index as int, j1)
                &&& (success ==> j1 == (DownloadItem {
                    status: DownloadStatus::Completed,
                    progress: 10000u32,
                    ..j0
                }))
                &&& (!success ==> j1.status == DownloadStatus::Failed)
                &&& (!success ==> (j1.error matches Some(m) && m@ == spec_failure_message(
                    exit_code,
                )))
                &&& (!success ==> j1.id == j0.id && j1.url == j0.url && j1.title == j0.title
                    && j1.format == j0.format && j1.quality == j0.quality && j1.progress
                    == j0.progress)
            },
    {
        if index < self.jobs.len() {
            let st = self.jobs[index].status;
            if st == DownloadStatus::Downloading || st == DownloadStatus::Converting {
                if success {
                    self.jobs[index].update_status(DownloadStatus::Completed);
                    self.jobs[index].update_progress(10000);
                } else {
                    self.jobs[index].set_error(failure_message(exit_code));
                }
            }
        }
        self.release_slot(index);
    }

    /// Records a launch or wait failure for a job and frees its slot: a
    /// running job fails with the given message.
    pub fn fail_job(&mut self, index: usize, message: String)
        requires
            old(self).wf(),
        ensures
            final(self).wf(),
            final(self).registry == old(self).registry,
            final(self).pending == old(self).pending,
            final(self).max_concurrent == old(self).max_concurrent,
            final(self).downloader == old(self).downloader,
            final(self).jobs@.len() == old(self).jobs@.len(),
            final(self).active@ == without_index(old(self).active@, index),
            (index as int >= old(self).jobs@.len() || !is_running(
                old(self).jobs@[index as int].status,
            )) ==> final(self).jobs == old(self).jobs,
            (index as int) < old(self).jobs@.len() && is_running(
                old(self).jobs@[index as int].status,
            ) ==> final(self).jobs@ == old(self).jobs@.update(
                index as int,
                (DownloadItem {
                    status: DownloadStatus::Failed,
                    error: Some(message),
                    ..old(self).jobs@[index as int]
                }),
            ),
    {
        if index < self.jobs.len() {
            let st = self.jobs[index].status;
            if st == DownloadStatus::Downloading || st == DownloadStatus::Converting {
                self.jobs[index].set_error(message);
            }
        }
        self.release_slot(index);
    }

    /// Removes a job from the active set, leaving records untouched.
    fn release_slot(&mut self, index: usize)
        requires
            old(self).wf(),
            index as int >= old(self).jobs@.len() || !is_running(
                old(self).jobs@[index as int].status,
            ),
        ensures
            final(self).wf(),
            final(self).jobs == old(self).jobs,
            final(self).registry == old(self).registry,
            final(self).pending == old(self).pending,
            final(self).max_concurrent == old(self).max_concurrent,
            final(self).downloader == old(self).downloader,
            final(self).active@ == without_index(old(self).active@, index),
    {
        let nj = self.jobs.len();
        let mut rest: Vec<usize> = Vec::new();
        let mut i: usize = 0;
        proof {
            assert(self.active@.subrange(0, 0) =~= Seq::<usize>::empty());
            assert(rest@ =~= without_index(self.active@.subrange(0, 0), index));
        }
        while i < self.active.len()
            invariant
                old(self).wf(),
                *self == *old(self),
                i <= self.active@.len(),
                rest@ == without_index(self.active@.subrange(0, i as int), index),
            decreases self.active@.len() - i,
        {
            let x = self.active[i];
            proof {
                let pre = self.active@.subrange(0, i as int);
                let post = self.active@.subrange(0, i + 1);
                assert(post.drop_last() =~= pre);
                assert(post.last() == x);
            }
            if x != index {
                rest.push(x);
            }
            i += 1;
        }
        proof {
            assert(self.active@.subrange(0, self.active@.len() as int) =~= self.active@);
            lemma_without_index_len(self.active@, index);
            assert forall|k: int| 0 <= k < rest@.len() implies (#[trigger] rest@[k])
                < self.jobs@.len() by {
                lemma_without_index_members(self.active@, index, k);
                let w = choose|w: int|
                    0 <= w < self.active@.len() && self.active@[w] == rest@[k];
            }
        }
        let ghost old_active = self.active@;
        self.active = rest;
        proof {
            assert forall|i2: int|
                0 <= i2 < self.jobs@.len() && is_running(
                    (#[trigger] self.jobs@[i2]).status,
                ) implies self.active@.contains(i2 as usize) by {
                assert(i2 < nj as int);
                let u = i2 as usize;
                assert(u as int == i2);
                assert(i2 != index as int);
                assert(old_active.contains(u));
                let w = choose|w: int| 0 <= w < old_active.len() && old_active[w] == u;
                assert(old_active[w] != index);
                lemma_without_index_keeps(old_active, index, w);
            }
        }
    }
}

/// The jobs currently reporting themselves as Downloading or Converting.
pub open spec fn running_jobs(q: DownloadQueue) -> Set<usize> {
    Set::new(|i: usize| (i as int) < q.jobs@.len() && is_running(q.jobs@[i as int].status))
}

/// A job has failed exactly when its error message is set.
pub proof fn lemma_failed_iff_error(q: DownloadQueue, i: int)
    requires
        q.wf(),
        0 <= i < q.jobs@.len(),
    ensures
        (q.jobs@[i].status == DownloadStatus::Failed) <==> (q.jobs@[i].error is Some),
{
}

/// At most `max_concurrent` jobs are Downloading or Converting at any one
/// time: every running job holds a slot and there are only that many.
pub proof fn lemma_concurrency_bound(q: DownloadQueue)
    requires
        q.wf(),
    ensures
        running_jobs(q).finite(),
        running_jobs(q).len() <= q.max_concurrent,
{
    broadcast use vstd::seq_lib::seq_to_set_is_finite;

    let act = q.active@.to_set();
    q.active@.lemma_cardinality_of_set();
    assert forall|x: usize| running_jobs(q).contains(x) implies act.contains(x) by {
        assert(q.active@.contains(x));
    }
    assert(running_jobs(q).subset_of(act));
    vstd::set_lib::lemma_len_subset(running_jobs(q), act);
}

/// Pending jobs wait in strict submission order, so the front of the
/// pending queue — the job `dispatch_next` promotes — was submitted no
/// later than any other pending job.
pub proof fn lemma_fifo_order(q: DownloadQueue, a: int, b: int)
    requires
        q.wf(),
        0 <= a < b < q.pending@.len(),
    ensures
        q.pending@[a] < q.pending@[b],
{
}

/// A job that is no longer queued — cancelled, running or ended — is not
/// pending, so it can never again be dispatched.
pub proof fn lemma_only_queued_pending(q: DownloadQueue, i: int)
    requires
        q.wf(),
        0 <= i < q.jobs@.len(),
        q.jobs@[i].status != DownloadStatus::Queued,
    ensures
        forall|k: int| 0 <= k < q.pending@.len() ==> (#[trigger] q.pending@[k]) as int != i,
{
}

/// The position of the first occurrence of `x`, if any.
fn find_index(v: &Vec<usize>, x: usize) -> (r: Option<usize>)
    ensures
        match r {
            Some(p) => {
                &&& (p as int) < v@.len()
                &&& v@[p as int] == x
                &&& forall|q: int| 0 <= q < p ==> v@[q] != x
            },
            None => !v@.contains(x),
        },
{
    let mut i: usize = 0;
    while i < v.len()
        invariant
            i <= v@.len(),
            forall|q: int| 0 <= q < i ==> v@[q] != x,
        decreases v@.len() - i,
    {
        if v[i] == x {
            return Some(i);
        }
        i += 1;
    }
    None
}

} // verus!

//! Reader/writer admission for SQLite files: many readers or one writer,
//! with writers admitted in the order they queued.
use vstd::prelude::*;
use std::collections::VecDeque;
use crate::text::{str_eq, strings_view};

verus! {

/// Tracks which SQLite files are open for reading, which writers wait, and
/// which writer (if any) is active.
#[derive(Debug)]
pub struct SqliteLockManager {
    readonly_set: Vec<String>,
    write_queue: VecDeque<String>,
    active_write: Option<String>,
}

impl SqliteLockManager {
    /// Paths currently held for reading.
    pub closed spec fn readers(&self) -> Set<Seq<char>> {
        Set::new(|p: Seq<char>| strings_view(self.readonly_set@).contains(p))
    }

    /// Paths waiting for write access, oldest first.
    pub closed spec fn queue(&self) -> Seq<Seq<char>> {
        strings_view(self.write_queue@)
    }

    /// The path holding write access, if any.
    pub closed spec fn writer(&self) -> Option<Seq<char>> {
        match self.active_write {
            Some(s) => Some(s@),
            None => None,
        }
    }

    /// Well-formedness: each reader is recorded once, and no path is held
    /// for reading while a writer is active.
    pub closed spec fn wf(&self) -> bool {
        &&& strings_view(self.readonly_set@).no_duplicates()
        &&& self.active_write is Some ==> self.readonly_set@.len() == 0
    }

    /// An empty manager: no readers, no queued writers, no active writer.
    pub fn new() -> (m: Self)
        ensures
            m.wf(),
            m.readers() == Set::<Seq<char>>::empty(),
            m.queue() == Seq::<Seq<char>>::empty(),
            m.writer() is None,
    {
        let m = SqliteLockManager {
            readonly_set: Vec::new(),
            write_queue: VecDeque::new(),
            active_write: None,
        };
        assert(m.readers() =~= Set::<Seq<char>>::empty());
        assert(m.queue() =~= Seq::<Seq<char>>::empty());
        m
    }

    fn reader_index(&self, path: &str) -> (r: Option<usize>)
        ensures
            r matches Some(i) ==> i < self.readonly_set@.len() && self.readonly_set@[i as int]@ == path@,
            r is None ==> !strings_view(self.readonly_set@).contains(path@),
    {
        let mut i: usize = 0;
        while i < self.readonly_set.len()
            invariant
                i <= self.readonly_set@.len(),
                forall|j: int| 0 <= j < i ==> self.readonly_set@[j]@ != path@,
            decreases self.readonly_set@.len() - i,
        {
            if str_eq(self.readonly_set[i].as_str(), path) {
                return Some(i);
            }
            i += 1;
        }
        proof {
            if strings_view(self.readonly_set@).contains(path@) {
                let j = choose|j: int| 0 <= j < strings_view(self.readonly_set@).len() && strings_view(self.readonly_set@)[j] == path@;
                assert(self.readonly_set@[j]@ == path@);
            }
        }
        None
    }

    /// Registers a reader of `path`. Refused (`false`, nothing changes)
    /// while a writer is active; otherwise `path` joins the readers.
    pub fn acquire_read(&mut self, path: &str) -> (ok: bool)
        requires
            old(self).wf(),
        ensures
            final(self).wf(),
            ok == (old(self).writer() is None),
            final(self).readers() == if ok { old(self).readers().insert(path@) } else { old(self).readers() },
            final(self).queue() == old(self).queue(),
            final(self).writer() == old(self).writer(),
    {
        if self.active_write.is_some() {
            return false;
        }
        let ghost before = strings_view(self.readonly_set@);
        match self.reader_index(path) {
            Some(_) => {
                assert(before.contains(path@)) by {
                    let i = choose|i: int| 0 <= i < self.readonly_set@.len() && self.readonly_set@[i]@ == path@;
                    assert(before[i] == path@);
                }
                assert(self.readers() =~= old(self).readers().insert(path@));
            },
            None => {
                let owned = path.to_owned();
                self.readonly_set.push(owned);
                let ghost after = strings_view(self.readonly_set@);
                assert(after =~= before.push(path@));
                assert(self.readers() =~= old(self).readers().insert(path@)) by {
                    assert forall|p: Seq<char>| after.contains(p) <==> before.contains(p) || p == path@ by {
                        if after.contains(p) {
                            let j = choose|j: int| 0 <= j < after.len() && after[j] == p;
                            if j < before.len() {
                                assert(before[j] == p);
                            }
                        }
                        if before.contains(p) {
                            let j = choose|j: int| 0 <= j < before.len() && before[j] == p;
                            assert(after[j] == p);
                        }
                        if p == path@ {
                            assert(after[before.len() as int] == p);
                        }
                    }
                }
            },
        }
        true
    }

    /// Drops `path` from the readers (no effect if it was not one).
    pub fn release_read(&mut self, path: &str)
        requires
            old(self).wf(),
        ensures
            final(self).wf(),
            final(self).readers() == old(self).readers().remove(path@),
            final(self).queue() == old(self).queue(),
            final(self).writer() == old(self).writer(),
    {
        let ghost before = strings_view(self.readonly_set@);
        match self.reader_index(path) {
            Some(i) => {
                self.readonly_set.remove(i);
                let ghost after = strings_view(self.readonly_set@);
                assert(after =~= before.remove(i as int));
                assert(self.readers() =~= old(self).readers().remove(path@)) by {
                    assert forall|p: Seq<char>| after.contains(p) <==> before.contains(p) && p != path@ by {
                        if after.contains(p) {
                            let j = choose|j: int| 0 <= j < after.len() && after[j] == p;
                            assert(before[i as int] == path@);
                            if j < i {
                                assert(before[j] == p);
                            } else {
                                assert(before[j + 1] == p);
                            }
                        }
                        if before.contains(p) && p != path@ {
                            let j = choose|j: int| 0 <= j < before.len() && before[j] == p;
                            if j < i {
                                assert(after[j] == p);
                            } else {
                                assert(j != i);
                                assert(after[j - 1] == p);
                            }
                        }
                    }
                }
            },
            None => {
                assert(self.readers() =~= old(self).readers().remove(path@));
            },
        }
    }

    /// Queues a writer for `path` behind those already waiting.
    pub fn enqueue_write(&mut self, path: &str)
        requires
            old(self).wf(),
        ensures
            final(self).wf(),
            final(self).readers() == old(self).readers(),
            final(self).queue() == old(self).queue().push(path@),
            final(self).writer() == old(self).writer(),
    {
        let owned = path.to_owned();
        self.write_queue.push_back(owned);
        assert(self.queue() =~= old(self).queue().push(path@));
    }

    /// Admits the oldest queued writer when no writer is active and no path
    /// is held for reading; returns the active writer afterwards.
    pub fn acquire_write(&mut self) -> (w: Option<String>)
        requires
            old(self).wf(),
        ensures
            final(self).wf(),
            final(self).readers() == old(self).readers(),
            old(self).writer() is None && old(self).readers().is_empty() && old(self).queue().len() > 0
                ==> final(self).writer() == Some(old(self).queue()[0])
                    && final(self).queue() == old(self).queue().drop_first(),
            !(old(self).writer() is None && old(self).readers().is_empty() && old(self).queue().len() > 0)
                ==> final(self).writer() == old(self).writer() && final(self).queue() == old(self).queue(),
            match w {
                Some(s) => final(self).writer() == Some(s@),
                None => final(self).writer() is None,
            },
    {
        proof {
            if self.readonly_set@.len() > 0 {
                assert(old(self).readers().contains(strings_view(self.readonly_set@)[0]));
            }
        }
        if self.active_write.is_none() && self.readonly_set.len() == 0 {
            let next = self.write_queue.pop_front();
            if next.is_some() {
                self.active_write = next;
                assert(self.queue() =~= old(self).queue().drop_first());
            }
        }
        match &self.active_write {
            Some(s) => Some(s.clone()),
            None => None,
        }
    }

    /// Ends the active write, if any.
    pub fn release_write(&mut self)
        requires
            old(self).wf(),
        ensures
            final(self).wf(),
            final(self).readers() == old(self).readers(),
            final(self).queue() == old(self).queue(),
            final(self).writer() is None,
    {
        self.active_write = None;
    }
}

/// Readers and a writer never hold files at the same time: in every
/// well-formed state (and every state the operations above produce is one),
/// an active writer means there are no readers.
pub proof fn lemma_writer_excludes_readers(m: SqliteLockManager)
    requires
        m.wf(),
    ensures
        m.writer() is Some ==> m.readers().is_empty(),
{
    if m.writer() is Some {
        assert(m.readers() =~= Set::<Seq<char>>::empty());
    }
}

/// A read taken and then released undoes itself: when `p` was not held
/// for reading, `acquire_read(p)` followed by `release_read(p)` leaves the
/// readers as they were.
pub proof fn lemma_read_round_trip(readers: Set<Seq<char>>, p: Seq<char>)
    requires
        !readers.contains(p),
    ensures
        readers.insert(p).remove(p) == readers,
{
    assert(readers.insert(p).remove(p) =~= readers);
}

/// Writers are admitted in the order they queued: queueing `w` behind a
/// non-empty queue `q` does not change who is admitted next (`q[0]`), and
/// after that admission `w` still waits behind the rest of `q`.
pub proof fn lemma_queue_first_in_first_out(q: Seq<Seq<char>>, w: Seq<char>)
    requires
        q.len() > 0,
    ensures
        q.push(w)[0] == q[0],
        q.push(w).drop_first() == q.drop_first().push(w),
{
    assert(q.push(w).drop_first() =~= q.drop_first().push(w));
}

} // verus!

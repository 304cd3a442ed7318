//! The write queue: writes to profile files that wait while the browser
//! holds the profile.

use vstd::prelude::*;
use crate::events::types::{PrefValue, PrefValueView};
use crate::profile::entities::{Container, ContainerView, Handler, HandlerView};
use crate::table::{Plain, StringMap};

verus! {

/// A write to a profile file that waits to be applied.
#[derive(Debug)]
pub enum PendingWrite {
    Containers(Vec<Container>),
    Handlers(Vec<Handler>),
    Prefs(StringMap<PrefValue>),
}

/// The kind of a pending write.
#[derive(Debug, Clone, Copy, PartialEq, Eq, Structural)]
pub enum WriteKind {
    Containers,
    Handlers,
    Prefs,
}

/// A pending write as plain data.
pub enum PendingWriteView {
    Containers(Seq<ContainerView>),
    Handlers(Seq<HandlerView>),
    Prefs(Map<Seq<char>, PrefValueView>),
}

impl PendingWriteView {
    /// The kind of this write.
    pub open spec fn kind(self) -> WriteKind {
        match self {
            PendingWriteView::Containers(_) => WriteKind::Containers,
            PendingWriteView::Handlers(_) => WriteKind::Handlers,
            PendingWriteView::Prefs(_) => WriteKind::Prefs,
        }
    }
}

impl View for PendingWrite {
    type V = PendingWriteView;

    open spec fn view(&self) -> PendingWriteView {
        match self {
            PendingWrite::Containers(c) => PendingWriteView::Containers(c.deep_view()),
            PendingWrite::Handlers(h) => PendingWriteView::Handlers(h.deep_view()),
            PendingWrite::Prefs(p) => PendingWriteView::Prefs(p@),
        }
    }
}

impl DeepView for PendingWrite {
    type V = PendingWriteView;

    open spec fn deep_view(&self) -> PendingWriteView {
        self.view()
    }
}

/// Copies a list of containers.
pub fn clone_containers(list: &Vec<Container>) -> (r: Vec<Container>)
    ensures
        r.deep_view() == list.deep_view(),
{
    let mut out: Vec<Container> = Vec::new();
    let mut i: usize = 0;
    while i < list.len()
        invariant
            i <= list.len(),
            out.len() == i,
            forall|j: int| 0 <= j < i ==> out[j]@ == list[j]@,
        decreases list.len() - i,
    {
        out.push(list[i].clone());
        i += 1;
    }
    proof {
        assert(out.deep_view() =~= list.deep_view());
    }
    out
}

/// Copies a list of handlers.
pub fn clone_handlers(list: &Vec<Handler>) -> (r: Vec<Handler>)
    ensures
        r.deep_view() == list.deep_view(),
{
    let mut out: Vec<Handler> = Vec::new();
    let mut i: usize = 0;
    while i < list.len()
        invariant
            i <= list.len(),
            out.len() == i,
            forall|j: int| 0 <= j < i ==> out[j]@ == list[j]@,
        decreases list.len() - i,
    {
        out.push(list[i].clone());
        i += 1;
    }
    proof {
        assert(out.deep_view() =~= list.deep_view());
    }
    out
}

impl PendingWrite {
    /// The kind of this write.
    pub fn kind(&self) -> (k: WriteKind)
        ensures
            k == self@.kind(),
    {
        match self {
            PendingWrite::Containers(_) => WriteKind::Containers,
            PendingWrite::Handlers(_) => WriteKind::Handlers,
            PendingWrite::Prefs(_) => WriteKind::Prefs,
        }
    }

    /// The name of the profile file that this write goes to.
    pub fn artifact(&self) -> (name: &'static str)
        ensures
            name@ == artifact_name(self@.kind()),
    {
        match self {
            PendingWrite::Containers(_) => "containers.json",
            PendingWrite::Handlers(_) => "handlers.json",
            PendingWrite::Prefs(_) => "user.js",
        }
    }
}

impl Clone for PendingWrite {
    fn clone(&self) -> (r: Self)
        ensures
            r@ == self@,
    {
        match self {
            PendingWrite::Containers(c) => PendingWrite::Containers(clone_containers(c)),
            PendingWrite::Handlers(h) => PendingWrite::Handlers(clone_handlers(h)),
            PendingWrite::Prefs(p) => PendingWrite::Prefs(p.duplicate()),
        }
    }
}

/// The name of the profile file that a kind of write goes to.
pub open spec fn artifact_name(kind: WriteKind) -> Seq<char> {
    match kind {
        WriteKind::Containers => "containers.json"@,
        WriteKind::Handlers => "handlers.json"@,
        WriteKind::Prefs => "user.js"@,
    }
}

/// The writes of a queue without those of one kind, in order.
pub open spec fn without_kind(writes: Seq<PendingWriteView>, kind: WriteKind) -> Seq<
    PendingWriteView,
>
    decreases writes.len(),
{
    if writes.len() == 0 {
        Seq::empty()
    } else {
        let rest = without_kind(writes.drop_last(), kind);
        if writes.last().kind() == kind {
            rest
        } else {
            rest.push(writes.last())
        }
    }
}

/// The queue after `write` was put in: an earlier write of its kind is
/// taken out, and `write` goes to the end.
pub open spec fn enqueued(writes: Seq<PendingWriteView>, write: PendingWriteView) -> Seq<
    PendingWriteView,
> {
    without_kind(writes, write.kind()).push(write)
}

/// No two writes of the queue have the same kind.
pub open spec fn kinds_distinct(writes: Seq<PendingWriteView>) -> bool {
    forall|i: int, j: int| 0 <= i < j < writes.len() ==> writes[i].kind() != writes[j].kind()
}

/// The file names of the writes, in order.
pub open spec fn artifact_names(writes: Seq<PendingWriteView>) -> Seq<Seq<char>> {
    Seq::new(writes.len(), |i: int| artifact_name(writes[i].kind()))
}

/// The writes without one kind are writes of the queue, in their order,
/// and none of them has that kind.
pub proof fn lemma_without_kind(writes: Seq<PendingWriteView>, kind: WriteKind)
    ensures
        forall|i: int|
            0 <= i < without_kind(writes, kind).len() ==> (#[trigger] without_kind(
                writes,
                kind,
            )[i]).kind() != kind,
        kinds_distinct(writes) ==> kinds_distinct(without_kind(writes, kind)),
        forall|i: int|
            0 <= i < without_kind(writes, kind).len() ==> exists|j: int|
                0 <= j < writes.len() && writes[j] == #[trigger] without_kind(writes, kind)[i],
        without_kind(writes, kind).len() <= writes.len(),
    decreases writes.len(),
{
    if writes.len() > 0 {
        let before = writes.drop_last();
        lemma_without_kind(before, kind);
        let rest = without_kind(before, kind);
        let out = without_kind(writes, kind);
        assert forall|i: int| 0 <= i < out.len() implies exists|j: int|
            0 <= j < writes.len() && writes[j] == #[trigger] out[i] by {
            if i < rest.len() {
                let j = choose|j: int| 0 <= j < before.len() && before[j] == rest[i];
                assert(writes[j] == out[i]);
            } else {
                assert(writes[writes.len() - 1] == out[i]);
            }
        }
        if kinds_distinct(writes) {
            assert forall|a: int, b: int| 0 <= a < b < before.len() implies before[a].kind()
                != before[b].kind() by {
                assert(writes[a].kind() != writes[b].kind());
            }
            assert forall|a: int, b: int| 0 <= a < b < out.len() implies out[a].kind()
                != out[b].kind() by {
                if b == rest.len() {
                    let j = choose|j: int| 0 <= j < before.len() && before[j] == rest[a];
                    assert(writes[j].kind() != writes[writes.len() - 1].kind());
                }
            }
        }
    }
}

/// Putting a write in keeps the kinds distinct.
pub proof fn lemma_enqueued(writes: Seq<PendingWriteView>, write: PendingWriteView)
    requires
        kinds_distinct(writes),
    ensures
        kinds_distinct(enqueued(writes, write)),
{
    lemma_without_kind(writes, write.kind());
}

/// The queue of deferred writes of one profile.
#[derive(Debug)]
pub struct WriteQueue {
    profile_path: String,
    pending: Vec<PendingWrite>,
}

impl View for WriteQueue {
    type V = Seq<PendingWriteView>;

    closed spec fn view(&self) -> Seq<PendingWriteView> {
        self.pending.deep_view()
    }
}

impl WriteQueue {
    #[verifier::type_invariant]
    spec fn inv(self) -> bool {
        kinds_distinct(self.pending.deep_view())
    }

    /// The profile directory that the writes go to.
    pub closed spec fn profile(&self) -> Seq<char> {
        self.profile_path@
    }

    /// An empty queue for the profile at `profile_path`.
    pub fn new(profile_path: String) -> (q: Self)
        ensures
            q@ == Seq::<PendingWriteView>::empty(),
            q.profile() == profile_path@,
    {
        let q = WriteQueue { profile_path, pending: Vec::new() };
        proof {
            assert(q.pending.deep_view() =~= Seq::<PendingWriteView>::empty());
        }
        q
    }

    /// The profile directory that the writes go to.
    pub fn profile_path(&self) -> (p: &str)
        ensures
            p@ == self.profile(),
    {
        self.profile_path.as_str()
    }

    /// Puts a write in, in place of an earlier write of its kind.
    pub fn enqueue(&mut self, write: PendingWrite)
        ensures
            final(self)@ == enqueued(old(self)@, write@),
            kinds_distinct(final(self)@),
            final(self).profile() == old(self).profile(),
    {
        proof {
            use_type_invariant(&*self);
        }
        let kind = write.kind();
        let mut rest: Vec<PendingWrite> = Vec::new();
        std::mem::swap(&mut rest, &mut self.pending);
        let ghost whole = rest.deep_view();
        let mut kept: Vec<PendingWrite> = Vec::new();
        let ghost mut taken: int = 0;
        proof {
            assert(whole.subrange(0, 0) =~= Seq::<PendingWriteView>::empty());
            assert(kept.deep_view() =~= Seq::<PendingWriteView>::empty());
        }
        while rest.len() > 0
            invariant
                0 <= taken <= whole.len(),
                rest.len() == whole.len() - taken,
                forall|j: int| 0 <= j < rest.len() ==> (#[trigger] rest[j])@ == whole[taken + j],
                kept.deep_view() == without_kind(whole.subrange(0, taken), kind),
            decreases rest.len(),
        {
            let ghost prior = rest@;
            let item = rest.remove(0);
            proof {
                assert(item == prior[0]);
                assert(item@ == whole[taken]);
                assert forall|j: int| 0 <= j < rest.len() implies (#[trigger] rest[j])@
                    == whole[taken + 1 + j] by {
                    assert(rest[j] == prior[j + 1]);
                }
                assert(whole.subrange(0, taken + 1).drop_last() =~= whole.subrange(0, taken));
                assert(whole.subrange(0, taken + 1).last() == item@);
            }
            let ghost before = kept.deep_view();
            if item.kind() != kind {
                kept.push(item);
                proof {
                    assert(kept.deep_view() =~= before.push(whole[taken]));
                }
            }
            proof {
                taken = taken + 1;
            }
        }
        proof {
            assert(whole.subrange(0, whole.len() as int) =~= whole);
        }
        let ghost without = kept.deep_view();
        let ghost w = write@;
        kept.push(write);
        proof {
            assert(kept.deep_view() =~= without.push(w));
            lemma_enqueued(whole, w);
        }
        self.pending = kept;
    }

    /// Queues a snapshot of the containers.
    pub fn queue_containers(&mut self, containers: Vec<Container>)
        ensures
            final(self)@ == enqueued(
                old(self)@,
                PendingWriteView::Containers(containers.deep_view()),
            ),
            kinds_distinct(final(self)@),
            final(self).profile() == old(self).profile(),
    {
        self.enqueue(PendingWrite::Containers(containers));
    }

    /// Queues a snapshot of the handlers.
    pub fn queue_handlers(&mut self, handlers: Vec<Handler>)
        ensures
            final(self)@ == enqueued(old(self)@, PendingWriteView::Handlers(handlers.deep_view())),
            kinds_distinct(final(self)@),
            final(self).profile() == old(self).profile(),
    {
        self.enqueue(PendingWrite::Handlers(handlers));
    }

    /// Queues a snapshot of the preferences.
    pub fn queue_prefs(&mut self, prefs: StringMap<PrefValue>)
        ensures
            final(self)@ == enqueued(old(self)@, PendingWriteView::Prefs(prefs@)),
            kinds_distinct(final(self)@),
            final(self).profile() == old(self).profile(),
    {
        self.enqueue(PendingWrite::Prefs(prefs));
    }

    /// True when nothing is queued.
    pub fn is_empty(&self) -> (r: bool)
        ensures
            r == (self@.len() == 0),
    {
        self.pending.len() == 0
    }

    /// Number of queued writes.
    pub fn len(&self) -> (n: usize)
        ensures
            n == self@.len(),
            kinds_distinct(self@),
    {
        proof {
            use_type_invariant(self);
        }
        self.pending.len()
    }

    /// The queued write at position `i`, oldest first.
    pub fn get(&self, i: usize) -> (w: &PendingWrite)
        requires
            i < self@.len(),
        ensures
            w@ == self@[i as int],
    {
        &self.pending[i]
    }

    /// Takes the first `written` writes off the queue, those that were
    /// applied to the profile, and returns the names of their files. The
    /// writes behind them stay queued, so that a write that failed and
    /// those after it are tried again.
    pub fn flush(&mut self, written: usize) -> (applied: Vec<String>)
        ensures
            ({
                let n = if written <= old(self)@.len() {
                    written as int
                } else {
                    old(self)@.len() as int
                };
                &&& applied.deep_view() == artifact_names(old(self)@.subrange(0, n))
                &&& final(self)@ == old(self)@.subrange(n, old(self)@.len() as int)
            }),
            kinds_distinct(final(self)@),
            final(self).profile() == old(self).profile(),
    {
        proof {
            use_type_invariant(&*self);
        }
        let mut rest: Vec<PendingWrite> = Vec::new();
        std::mem::swap(&mut rest, &mut self.pending);
        let ghost whole = rest.deep_view();
        let n = if written <= rest.len() {
            written
        } else {
            rest.len()
        };
        let mut applied: Vec<String> = Vec::new();
        let mut i: usize = 0;
        while i < n
            invariant
                i <= n <= whole.len(),
                rest.len() == whole.len() - i,
                forall|j: int| 0 <= j < rest.len() ==> (#[trigger] rest[j])@ == whole[i + j],
                applied.len() == i,
                forall|j: int| 0 <= j < i ==> applied[j]@ == artifact_name(whole[j].kind()),
            decreases n - i,
        {
            let ghost prior = rest@;
            let item = rest.remove(0);
            proof {
                assert(item == prior[0]);
                assert(item@ == whole[i as int]);
                assert forall|j: int| 0 <= j < rest.len() implies (#[trigger] rest[j])@
                    == whole[i + 1 + j] by {
                    assert(rest[j] == prior[j + 1]);
                }
            }
            applied.push(item.artifact().to_owned());
            i += 1;
        }
        proof {
            assert(applied.deep_view() =~= artifact_names(whole.subrange(0, n as int)));
            assert(rest.deep_view() =~= whole.subrange(n as int, whole.len() as int));
            let tail = whole.subrange(n as int, whole.len() as int);
            assert forall|a: int, b: int| 0 <= a < b < tail.len() implies tail[a].kind()
                != tail[b].kind() by {
                assert(whole[a + n].kind() != whole[b + n].kind());
            }
        }
        self.pending = rest;
        applied
    }
}

} // verus!

//! The controllers that are connected.

use vstd::prelude::*;

use crate::controller::Controller;
use crate::device::{ConnectionType, DeviceInfo};
use crate::error::{Error, Result};

verus! {

/// A connected controller, with whatever its owner keeps beside it.
pub struct Entry<H> {
    pub controller: Controller,
    pub handle: H,
}

/// The connected controllers, each only once, in the order in which they came.
pub struct Registry<H> {
    pub entries: Vec<Entry<H>>,
}

/// No controller occurs twice.
pub open spec fn distinct<H>(entries: Seq<Entry<H>>) -> bool {
    forall|i: int, j: int|
        0 <= i < j < entries.len() ==> (#[trigger] entries[i]).controller.identity() != (
        #[trigger] entries[j]).controller.identity()
}

/// Whether one of the entries is for the same controller.
pub open spec fn holds<H>(entries: Seq<Entry<H>>, controller: Controller) -> bool {
    exists|i: int|
        0 <= i < entries.len() && (#[trigger] entries[i]).controller.identity()
            == controller.identity()
}

/// Whether one of the entries is for the same controller and its input is being
/// processed.
pub open spec fn busy<H>(entries: Seq<Entry<H>>, controller: Controller) -> bool {
    exists|i: int|
        0 <= i < entries.len() && (#[trigger] entries[i]).controller.identity()
            == controller.identity() && entries[i].controller.device().running
}

/// Whether the entry is for a controller with this id.
pub open spec fn has_id<H>(entry: Entry<H>, id: Seq<char>) -> bool {
    entry.controller.device().device.id@ == id
}

/// The entries with this id.
pub open spec fn with_id<H>(entries: Seq<Entry<H>>, id: Seq<char>) -> Seq<Entry<H>> {
    entries.filter(|entry: Entry<H>| has_id(entry, id))
}

/// The entries without this id.
pub open spec fn without_id<H>(entries: Seq<Entry<H>>, id: Seq<char>) -> Seq<Entry<H>> {
    entries.filter(|entry: Entry<H>| !has_id(entry, id))
}

/// Those of `new` that are not in `known`.
pub open spec fn newcomers<H>(known: Seq<Entry<H>>, new: Seq<Entry<H>>) -> Seq<Entry<H>> {
    new.filter(|entry: Entry<H>| !holds(known, entry.controller))
}

/// Those of `new` that are in `known` already.
pub open spec fn repeats<H>(known: Seq<Entry<H>>, new: Seq<Entry<H>>) -> Seq<Entry<H>> {
    new.filter(|entry: Entry<H>| holds(known, entry.controller))
}

/// The entry with another decision on whether to disconnect its controller when it
/// is let go.
pub open spec fn marked<H>(entry: Entry<H>, disconnect: bool) -> Entry<H> {
    Entry {
        controller: entry.controller.with_disconnect_on_drop(disconnect),
        handle: entry.handle,
    }
}

/// The entry for a device, if it is a controller.
pub open spec fn entry_for<H>(device: DeviceInfo, handle: H, disconnect: bool) -> Option<
    Entry<H>,
> {
    match Controller::recognised(device) {
        Some(controller) => Some(marked(Entry { controller, handle }, disconnect)),
        None => None,
    }
}

/// Whether the entry is the one for one of the devices.
pub open spec fn stands_for<H>(
    devices: Seq<(DeviceInfo, H)>,
    entry: Entry<H>,
    disconnect: bool,
) -> bool {
    exists|i: int|
        0 <= i < devices.len() && entry_for((#[trigger] devices[i]).0, devices[i].1, disconnect)
            == Some(entry)
}

/// The entries for those of the devices that are controllers, without those that
/// one before them stands for already.
pub open spec fn gathered<H>(devices: Seq<(DeviceInfo, H)>, disconnect: bool) -> Seq<Entry<H>>
    decreases devices.len(),
{
    if devices.len() == 0 {
        Seq::empty()
    } else {
        let before = gathered(devices.drop_last(), disconnect);
        match entry_for(devices.last().0, devices.last().1, disconnect) {
            Some(entry) => if holds(before, entry.controller) {
                before
            } else {
                before.push(entry)
            },
            None => before,
        }
    }
}

/// The entries for those of the devices that are controllers for which one before
/// them stands already.
pub open spec fn superfluous<H>(devices: Seq<(DeviceInfo, H)>, disconnect: bool) -> Seq<Entry<H>>
    decreases devices.len(),
{
    if devices.len() == 0 {
        Seq::empty()
    } else {
        let before = superfluous(devices.drop_last(), disconnect);
        match entry_for(devices.last().0, devices.last().1, disconnect) {
            Some(entry) => if holds(gathered(devices.drop_last(), disconnect), entry.controller) {
                before.push(entry)
            } else {
                before
            },
            None => before,
        }
    }
}

impl<H> View for Registry<H> {
    type V = Seq<Entry<H>>;

    open spec fn view(&self) -> Seq<Entry<H>> {
        self.entries@
    }
}

impl<H> Registry<H> {
    /// No controller occurs twice.
    pub open spec fn wf(self) -> bool {
        distinct(self@)
    }

    pub fn new() -> (registry: Self)
        ensures
            registry@ == Seq::<Entry<H>>::empty(),
            registry.wf(),
    {
        Self { entries: Vec::new() }
    }

    /// The number of connected controllers.
    pub fn len(&self) -> (count: usize)
        ensures
            count == self@.len(),
    {
        self.entries.len()
    }

    /// Whether the controller is connected.
    pub fn contains(&self, controller: &Controller) -> (found: bool)
        ensures
            found == holds(self@, *controller),
    {
        let mut i: usize = 0;
        while i < self.entries.len()
            invariant
                i <= self@.len(),
                forall|k: int|
                    0 <= k < i ==> (#[trigger] self@[k]).controller.identity()
                        != controller.identity(),
            decreases self@.len() - i,
        {
            if self.entries[i].controller.same(controller) {
                assert(self@[i as int].controller.identity() == controller.identity());
                return true;
            }
            i = i + 1;
        }
        false
    }

    /// Begins the processing of input of a controller that has just come, and returns
    /// what has to be sent first. If its input is being processed already, for this
    /// controller or for the same one among those that are connected, nothing
    /// changes.
    pub fn begin_input(&self, controller: &mut Controller) -> (first: Result<Vec<u8>>)
        ensures
            busy(self@, *old(controller)) ==> first == Err::<Vec<u8>, Error>(Error::Busy)
                && *final(controller) == *old(controller),
            !busy(self@, *old(controller)) ==> *final(controller) == old(controller).with_running(
                true,
            ) && match (first, old(controller).first_report()) {
                (Ok(report), Ok(bytes)) => report@ == bytes,
                (Err(e), Err(f)) => e == f,
                _ => false,
            },
    {
        let mut i: usize = 0;
        while i < self.entries.len()
            invariant
                i <= self@.len(),
                *controller == *old(controller),
                forall|k: int|
                    0 <= k < i ==> !((#[trigger] self@[k]).controller.identity()
                        == controller.identity() && self@[k].controller.device().running),
            decreases self@.len() - i,
        {
            if self.entries[i].controller.same(controller)
                && self.entries[i].controller.input_busy() {
                assert(self@[i as int].controller.identity() == controller.identity());
                return Err(Error::Busy);
            }
            i = i + 1;
        }
        controller.process_inputs()
    }

    /// Adds a controller behind the others. One that is connected already is not
    /// added: the entry is handed back, and the one that was there stays.
    pub fn insert(&mut self, entry: Entry<H>) -> (rejected: Option<Entry<H>>)
        requires
            old(self).wf(),
        ensures
            final(self).wf(),
            holds(old(self)@, entry.controller) ==> rejected == Some(entry) && final(self)@ == old(
                self,
            )@,
            !holds(old(self)@, entry.controller) ==> rejected is None && final(self)@ == old(
                self,
            )@.push(entry),
    {
        if self.contains(&entry.controller) {
            Some(entry)
        } else {
            self.entries.push(entry);
            None
        }
    }

    /// Adds all controllers of `new` behind the others, in their order. Those that
    /// are connected already are not added but handed back.
    pub fn extend(&mut self, new: Registry<H>) -> (rejected: Vec<Entry<H>>)
        requires
            old(self).wf(),
            new.wf(),
        ensures
            final(self).wf(),
            final(self)@ == old(self)@ + newcomers(old(self)@, new@),
            rejected@ == repeats(old(self)@, new@),
    {
        let ghost known = self@;
        let ghost all = new@;
        let ghost mut n: int = 0;
        let mut rest: Vec<Entry<H>> = new.entries;
        let mut rejected: Vec<Entry<H>> = Vec::new();
        proof {
            reveal(Seq::filter);
            assert(all.take(0) =~= Seq::empty());
            assert(all.skip(0) =~= all);
            assert(known + newcomers(known, all.take(0)) =~= known);
        }
        while rest.len() > 0
            invariant
                0 <= n <= all.len(),
                rest@ == all.skip(n),
                distinct(all),
                self.wf(),
                self@ == known + newcomers(known, all.take(n)),
                rejected@ == repeats(known, all.take(n)),
            decreases rest@.len(),
        {
            let entry: Entry<H> = rest.remove(0);
            proof {
                assert(entry == all[n]);
                assert(rest@ =~= all.skip(n + 1));
                assert(all.take(n + 1).drop_last() =~= all.take(n));
                assert(all.take(n + 1).last() == entry);
                reveal(Seq::filter);
                lemma_holds_concat(known, newcomers(known, all.take(n)), entry.controller);
                lemma_filtered_prefix_lacks(
                    all,
                    n,
                    |e: Entry<H>| !holds(known, e.controller),
                );
            }
            match self.insert(entry) {
                Some(entry) => {
                    rejected.push(entry);
                },
                None => {},
            }
            proof {
                n = n + 1;
                assert(self@ =~= known + newcomers(known, all.take(n)));
                assert(rejected@ =~= repeats(known, all.take(n)));
            }
        }
        assert(all.take(n) =~= all);
        rejected
    }

    /// Takes up those of the devices that are controllers, each only once and in
    /// their order, and decides for all of them whether to disconnect them when they
    /// are let go. Hands back the ones that repeat another.
    pub fn gather(devices: Vec<(DeviceInfo, H)>, disconnect: bool) -> (found: (
        Registry<H>,
        Vec<Entry<H>>,
    ))
        ensures
            found.0.wf(),
            found.0@ == gathered(devices@, disconnect),
            found.1@ == superfluous(devices@, disconnect),
    {
        let ghost all = devices@;
        let ghost mut n: int = 0;
        let mut rest: Vec<(DeviceInfo, H)> = devices;
        let mut registry: Registry<H> = Registry::new();
        let mut rejected: Vec<Entry<H>> = Vec::new();
        proof {
            assert(all.take(0) =~= Seq::empty());
            assert(all.skip(0) =~= all);
        }
        while rest.len() > 0
            invariant
                0 <= n <= all.len(),
                rest@ == all.skip(n),
                registry.wf(),
                registry@ == gathered(all.take(n), disconnect),
                rejected@ == superfluous(all.take(n), disconnect),
            decreases rest@.len(),
        {
            let (device, handle): (DeviceInfo, H) = rest.remove(0);
            proof {
                assert(rest@ =~= all.skip(n + 1));
                assert(all.take(n + 1).drop_last() =~= all.take(n));
                assert(all.take(n + 1).last() == (device, handle));
                n = n + 1;
            }
            match Controller::from_device(device) {
                Some(mut controller) => {
                    controller.set_disconnect_on_drop(disconnect);
                    match registry.insert(Entry { controller, handle }) {
                        Some(entry) => {
                            rejected.push(entry);
                        },
                        None => {},
                    }
                },
                None => {},
            }
        }
        assert(all.take(n) =~= all);
        (registry, rejected)
    }

    /// Sets for every controller whether to disconnect it when it is let go.
    pub fn set_disconnect_on_drop(&mut self, disconnect: bool)
        requires
            old(self).wf(),
        ensures
            final(self).wf(),
            final(self)@.len() == old(self)@.len(),
            forall|i: int|
                0 <= i < old(self)@.len() ==> #[trigger] final(self)@[i] == marked(
                    old(self)@[i],
                    disconnect,
                ),
    {
        let ghost all = self@;
        let mut i: usize = 0;
        while i < self.entries.len()
            invariant
                i <= self@.len(),
                self@.len() == all.len(),
                forall|k: int| i <= k < all.len() ==> #[trigger] self@[k] == all[k],
                forall|k: int|
                    0 <= k < i ==> #[trigger] self@[k] == marked(all[k], disconnect),
            decreases self@.len() - i,
        {
            self.entries[i].controller.set_disconnect_on_drop(disconnect);
            i = i + 1;
        }
        assert(self.wf()) by {
            assert forall|i: int, j: int| 0 <= i < j < self@.len() implies (
            #[trigger] self@[i]).controller.identity() != (
            #[trigger] self@[j]).controller.identity() by {
                assert(all[i].controller.identity() != all[j].controller.identity());
            }
        }
    }

    /// Takes out and hands back all controllers with this id; the others stay, in
    /// their order.
    pub fn remove(&mut self, id: &String) -> (removed: Vec<Entry<H>>)
        requires
            old(self).wf(),
        ensures
            final(self).wf(),
            final(self)@ == without_id(old(self)@, id@),
            removed@ == with_id(old(self)@, id@),
    {
        let ghost all = self@;
        let ghost mut n: int = 0;
        let mut removed: Vec<Entry<H>> = Vec::new();
        let mut i: usize = 0;
        proof {
            reveal(Seq::filter);
            assert(all.take(0) =~= Seq::empty());
            assert(all.skip(0) =~= all);
            assert(without_id(all.take(0), id@) + all.skip(0) =~= all);
        }
        while i < self.entries.len()
            invariant
                0 <= n <= all.len(),
                i == without_id(all.take(n), id@).len(),
                self@ == without_id(all.take(n), id@) + all.skip(n),
                removed@ == with_id(all.take(n), id@),
            decreases self@.len() - i,
        {
            proof {
                assert(self@[i as int] == all[n]);
                assert(all.take(n + 1).drop_last() =~= all.take(n));
                assert(all.take(n + 1).last() == all[n]);
                reveal(Seq::filter);
            }
            if *self.entries[i].controller.id() == *id {
                let entry: Entry<H> = self.entries.remove(i);
                removed.push(entry);
            } else {
                i = i + 1;
            }
            proof {
                n = n + 1;
                assert(self@ =~= without_id(all.take(n), id@) + all.skip(n));
                assert(removed@ =~= with_id(all.take(n), id@));
            }
        }
        proof {
            assert(n == all.len());
            assert(all.take(n) =~= all);
            assert(self@ =~= without_id(all, id@));
            lemma_filter_distinct(all, |entry: Entry<H>| !has_id(entry, id@));
        }
        removed
    }
}

/// Gathering devices takes up every controller among them, takes up nothing else,
/// and takes up none twice.
pub proof fn gathering_is_exact<H>(devices: Seq<(DeviceInfo, H)>, disconnect: bool)
    ensures
        distinct(gathered(devices, disconnect)),
        forall|i: int|
            0 <= i < devices.len() ==> {
                let entry = entry_for((#[trigger] devices[i]).0, devices[i].1, disconnect);
                entry is Some ==> holds(gathered(devices, disconnect), entry->0.controller)
            },
        forall|k: int|
            0 <= k < gathered(devices, disconnect).len() ==> stands_for(
                devices,
                #[trigger] gathered(devices, disconnect)[k],
                disconnect,
            ),
    decreases devices.len(),
{
    if devices.len() > 0 {
        let before = devices.drop_last();
        let was = gathered(before, disconnect);
        let is = gathered(devices, disconnect);
        gathering_is_exact(before, disconnect);
        assert(forall|k: int| 0 <= k < was.len() ==> was[k] == #[trigger] is[k]);
        assert forall|i: int| 0 <= i < devices.len() implies {
            let entry = entry_for((#[trigger] devices[i]).0, devices[i].1, disconnect);
            entry is Some ==> holds(is, entry->0.controller)
        } by {
            let entry = entry_for(devices[i].0, devices[i].1, disconnect);
            if entry is Some {
                if i < before.len() {
                    assert(before[i] == devices[i]);
                    assert(holds(was, entry->0.controller));
                }
                if holds(was, entry->0.controller) {
                    let k = choose|k: int|
                        0 <= k < was.len() && (#[trigger] was[k]).controller.identity()
                            == entry->0.controller.identity();
                    assert(is[k].controller.identity() == entry->0.controller.identity());
                } else {
                    assert(is[was.len() as int] == entry->0);
                }
            }
        }
        assert forall|k: int| 0 <= k < is.len() implies stands_for(
            devices,
            #[trigger] is[k],
            disconnect,
        ) by {
            if k < was.len() {
                assert(stands_for(before, was[k], disconnect));
                let i = choose|i: int|
                    0 <= i < before.len() && entry_for(
                        (#[trigger] before[i]).0,
                        before[i].1,
                        disconnect,
                    ) == Some(was[k]);
                assert(devices[i] == before[i]);
            } else {
                assert(devices[devices.len() - 1] == devices.last());
            }
        }
    }
}

/// A controller whose input is being processed stays the only one for its device:
/// once it is among the connected ones, no other for the same device can begin.
pub proof fn begun_input_blocks_the_same_device<H>(
    known: Seq<Entry<H>>,
    begun: Entry<H>,
    other: Controller,
)
    requires
        begun.controller.identity() == other.identity(),
    ensures
        busy(
            known.push(
                Entry {
                    controller: begun.controller.with_running(true),
                    handle: begun.handle,
                },
            ),
            other,
        ),
{
    let entry = Entry { controller: begun.controller.with_running(true), handle: begun.handle };
    let all = known.push(entry);
    assert(all[known.len() as int] == entry);
    assert(entry.controller.identity() == other.identity());
}

/// After a removal no controller with the id is left, none without it is lost, and
/// those handed back are exactly the ones that are gone.
pub proof fn removal_is_exact<H>(entries: Seq<Entry<H>>, id: Seq<char>)
    ensures
        forall|i: int|
            0 <= i < without_id(entries, id).len() ==> !has_id(
                #[trigger] without_id(entries, id)[i],
                id,
            ),
        forall|i: int|
            0 <= i < with_id(entries, id).len() ==> has_id(#[trigger] with_id(entries, id)[i], id),
        forall|entry: Entry<H>|
            #![trigger has_id(entry, id)]
            entries.contains(entry) ==> if has_id(entry, id) {
                with_id(entries, id).contains(entry)
            } else {
                without_id(entries, id).contains(entry)
            },
        without_id(entries, id).len() + with_id(entries, id).len() == entries.len(),
    decreases entries.len(),
{
    reveal(Seq::filter);
    if entries.len() > 0 {
        let before = entries.drop_last();
        let last = entries.last();
        removal_is_exact(before, id);
        let gone = with_id(before, id);
        let left = without_id(before, id);
        assert forall|entry: Entry<H>|
            #![trigger has_id(entry, id)]
            entries.contains(entry) implies if has_id(entry, id) {
            with_id(entries, id).contains(entry)
        } else {
            without_id(entries, id).contains(entry)
        } by {
            let i = choose|i: int| 0 <= i < entries.len() && entries[i] == entry;
            if i < before.len() {
                assert(before[i] == entry);
                if has_id(entry, id) {
                    let k = choose|k: int| 0 <= k < gone.len() && gone[k] == entry;
                    assert(with_id(entries, id)[k] == entry);
                } else {
                    let k = choose|k: int| 0 <= k < left.len() && left[k] == entry;
                    assert(without_id(entries, id)[k] == entry);
                }
            } else if has_id(entry, id) {
                assert(with_id(entries, id)[gone.len() as int] == entry);
            } else {
                assert(without_id(entries, id)[left.len() as int] == entry);
            }
        }
    }
}

/// Controllers that were added are known from then on: adding them once more adds
/// nothing and hands all of them back.
pub proof fn adding_again_adds_nothing<H>(known: Seq<Entry<H>>, new: Seq<Entry<H>>)
    ensures
        newcomers(known + newcomers(known, new), new) == Seq::<Entry<H>>::empty(),
        repeats(known + newcomers(known, new), new) == new,
{
    let all = known + newcomers(known, new);
    assert forall|i: int| 0 <= i < new.len() implies holds(
        all,
        (#[trigger] new[i]).controller,
    ) by {
        lemma_holds_concat(known, newcomers(known, new), new[i].controller);
        if !holds(known, new[i].controller) {
            let pred = |entry: Entry<H>| !holds(known, entry.controller);
            new.lemma_filter_contains(pred, i);
            let k = choose|k: int|
                0 <= k < newcomers(known, new).len() && newcomers(known, new)[k] == new[i];
            assert(newcomers(known, new)[k].controller.identity() == new[i].controller.identity());
        }
    }
    lemma_filter_all(new, |entry: Entry<H>| holds(all, entry.controller));
    lemma_filter_none(new, |entry: Entry<H>| !holds(all, entry.controller));
}

proof fn lemma_filter_all<H>(all: Seq<Entry<H>>, pred: spec_fn(Entry<H>) -> bool)
    requires
        forall|i: int| 0 <= i < all.len() ==> pred(#[trigger] all[i]),
    ensures
        all.filter(pred) == all,
    decreases all.len(),
{
    reveal(Seq::filter);
    if all.len() > 0 {
        assert forall|i: int| 0 <= i < all.drop_last().len() implies pred(
            #[trigger] all.drop_last()[i],
        ) by {
            assert(pred(all[i]));
        }
        lemma_filter_all(all.drop_last(), pred);
        assert(pred(all[all.len() - 1]));
        assert(all.filter(pred) =~= all);
    }
}

proof fn lemma_filter_none<H>(all: Seq<Entry<H>>, pred: spec_fn(Entry<H>) -> bool)
    requires
        forall|i: int| 0 <= i < all.len() ==> !pred(#[trigger] all[i]),
    ensures
        all.filter(pred) == Seq::<Entry<H>>::empty(),
    decreases all.len(),
{
    reveal(Seq::filter);
    if all.len() > 0 {
        assert forall|i: int| 0 <= i < all.drop_last().len() implies !pred(
            #[trigger] all.drop_last()[i],
        ) by {
            assert(!pred(all[i]));
        }
        lemma_filter_none(all.drop_last(), pred);
        assert(!pred(all[all.len() - 1]));
    }
}

proof fn lemma_holds_concat<H>(a: Seq<Entry<H>>, b: Seq<Entry<H>>, controller: Controller)
    ensures
        holds(a + b, controller) <==> holds(a, controller) || holds(b, controller),
{
    let both = a + b;
    if holds(a, controller) {
        let i = choose|i: int|
            0 <= i < a.len() && (#[trigger] a[i]).controller.identity() == controller.identity();
        assert(both[i] == a[i]);
    }
    if holds(b, controller) {
        let i = choose|i: int|
            0 <= i < b.len() && (#[trigger] b[i]).controller.identity() == controller.identity();
        assert(both[a.len() + i] == b[i]);
    }
    if holds(both, controller) {
        let i = choose|i: int|
            0 <= i < both.len() && (#[trigger] both[i]).controller.identity()
                == controller.identity();
        if i < a.len() {
            assert(a[i] == both[i]);
        } else {
            assert(b[i - a.len()] == both[i]);
        }
    }
}

/// Where no controller occurs twice, none of those before `n` is the one at `n`.
proof fn lemma_filtered_prefix_lacks<H>(
    all: Seq<Entry<H>>,
    n: int,
    pred: spec_fn(Entry<H>) -> bool,
)
    requires
        distinct(all),
        0 <= n < all.len(),
    ensures
        !holds(all.take(n).filter(pred), all[n].controller),
{
    let kept = all.take(n).filter(pred);
    if holds(kept, all[n].controller) {
        let i = choose|i: int|
            0 <= i < kept.len() && (#[trigger] kept[i]).controller.identity()
                == all[n].controller.identity();
        lemma_filter_from(all.take(n), pred, i);
        let j = choose|j: int| 0 <= j < n && #[trigger] all.take(n)[j] == kept[i];
        assert(all[j] == kept[i]);
    }
}

/// Whatever a filter lets through was there before.
proof fn lemma_filter_from<H>(all: Seq<Entry<H>>, pred: spec_fn(Entry<H>) -> bool, i: int)
    requires
        0 <= i < all.filter(pred).len(),
    ensures
        exists|j: int| 0 <= j < all.len() && #[trigger] all[j] == all.filter(pred)[i],
    decreases all.len(),
{
    reveal(Seq::filter);
    if all.len() > 0 {
        let before = all.drop_last();
        if i < before.filter(pred).len() {
            lemma_filter_from(before, pred, i);
            let j = choose|j: int| 0 <= j < before.len() && #[trigger] before[j] == before.filter(
                pred,
            )[i];
            assert(all[j] == all.filter(pred)[i]);
        } else {
            assert(all[all.len() - 1] == all.filter(pred)[i]);
        }
    }
}

/// What a filter leaves of entries without repetition has none either.
proof fn lemma_filter_distinct<H>(all: Seq<Entry<H>>, pred: spec_fn(Entry<H>) -> bool)
    requires
        distinct(all),
    ensures
        distinct(all.filter(pred)),
    decreases all.len(),
{
    reveal(Seq::filter);
    if all.len() > 0 {
        let before = all.drop_last();
        lemma_filter_distinct(before, pred);
        if pred(all.last()) {
            assert(all.take(all.len() - 1) =~= before);
            lemma_filtered_prefix_lacks(all, all.len() - 1, pred);
        }
    }
}

/// Whether two controllers are of the same type and have the same device.
pub open spec fn alike(x: Controller, y: Controller) -> bool {
    &&& x is DualSense == y is DualSense
    &&& x.device().device@ == y.device().device@
}

/// A controller is connected if one of the entries is of its type and has its device,
/// whatever else is known of either; its input is being processed if that of such an
/// entry is; and none occurs twice if no two entries are alike.
pub proof fn presence_by_device<H>(entries: Seq<Entry<H>>, controller: Controller)
    ensures
        holds(entries, controller) <==> exists|i: int|
            0 <= i < entries.len() && alike((#[trigger] entries[i]).controller, controller),
        busy(entries, controller) <==> exists|i: int|
            0 <= i < entries.len() && alike((#[trigger] entries[i]).controller, controller)
                && entries[i].controller.device().running,
        distinct(entries) <==> forall|i: int, j: int|
            0 <= i < j < entries.len() ==> !alike(
                (#[trigger] entries[i]).controller,
                (#[trigger] entries[j]).controller,
            ),
{
    if holds(entries, controller) {
        let i = choose|i: int|
            0 <= i < entries.len() && (#[trigger] entries[i]).controller.identity()
                == controller.identity();
        assert(alike(entries[i].controller, controller));
    }
    if busy(entries, controller) {
        let i = choose|i: int|
            0 <= i < entries.len() && (#[trigger] entries[i]).controller.identity()
                == controller.identity() && entries[i].controller.device().running;
        assert(alike(entries[i].controller, controller));
    }
    if exists|i: int|
        0 <= i < entries.len() && alike((#[trigger] entries[i]).controller, controller) {
        let i = choose|i: int|
            0 <= i < entries.len() && alike((#[trigger] entries[i]).controller, controller);
        assert(entries[i].controller.identity() == controller.identity());
    }
    assert forall|i: int, j: int| 0 <= i < entries.len() && 0 <= j < entries.len() implies alike(
        (#[trigger] entries[i]).controller,
        (#[trigger] entries[j]).controller,
    ) == (entries[i].controller.identity() == entries[j].controller.identity()) by {}
    if distinct(entries) {
        assert forall|i: int, j: int| 0 <= i < j < entries.len() implies !alike(
            (#[trigger] entries[i]).controller,
            (#[trigger] entries[j]).controller,
        ) by {
            assert(entries[i].controller.identity() != entries[j].controller.identity());
        }
    }
}

/// Marking an entry sets the one decision and leaves everything else as it was.
pub proof fn marking_an_entry<H>(entry: Entry<H>, disconnect: bool)
    ensures
        ({
            let was = entry.controller.device();
            let is = marked(entry, disconnect).controller.device();
            &&& marked(entry, disconnect).handle == entry.handle
            &&& marked(entry, disconnect).controller is DualSense == entry.controller is DualSense
            &&& is.device == was.device
            &&& is.connection == was.connection
            &&& is.running == was.running
            &&& is.disconnect_on_drop == disconnect
        }),
{
}

/// Whether the ids of the device are those of a controller.
pub open spec fn is_controller(device: DeviceInfo) -> bool {
    &&& device.vendor_id == 0x054C
    &&& device.product_id == 0x0CE6 || device.product_id == 0x05C4 || device.product_id == 0x09CC
}

/// How many of the devices are controllers.
pub open spec fn controller_count<H>(devices: Seq<(DeviceInfo, H)>) -> nat
    decreases devices.len(),
{
    if devices.len() == 0 {
        0
    } else if is_controller(devices.last().0) {
        controller_count(devices.drop_last()) + 1
    } else {
        controller_count(devices.drop_last())
    }
}

/// Whether a device before this one is the same.
pub open spec fn came_before<H>(devices: Seq<(DeviceInfo, H)>, at: int) -> bool {
    exists|i: int| 0 <= i < at && (#[trigger] devices[i]).0@ == devices[at].0@
}

/// The entry holds this controller with this handle, freshly taken up.
pub open spec fn taken_up<H>(entry: Entry<H>, from: (DeviceInfo, H), disconnect: bool) -> bool {
    let taken = entry.controller.device();
    &&& entry.handle == from.1
    &&& taken.device == from.0
    &&& entry.controller is DualSense <==> from.0.product_id == 0x0CE6
    &&& taken.connection == ConnectionType::Usb <==> from.0.serial_number is None && (
    from.0.max_input_report_length is None || from.0.max_input_report_length->0 == 64)
    &&& !taken.running
    &&& taken.disconnect_on_drop == disconnect
}

/// The entries are the controllers among the devices at these places, in their order.
pub open spec fn taken_in_order<H>(
    entries: Seq<Entry<H>>,
    devices: Seq<(DeviceInfo, H)>,
    places: Seq<int>,
    disconnect: bool,
) -> bool {
    &&& places.len() == entries.len()
    &&& forall|k: int|
        0 <= k < places.len() ==> 0 <= #[trigger] places[k] < devices.len() && is_controller(
            devices[places[k]].0,
        ) && taken_up(entries[k], devices[places[k]], disconnect)
    &&& forall|k: int, l: int| 0 <= k < l < places.len() ==> places[k] < places[l]
}

/// The places of the controllers among the devices that are the first of their kind, or
/// the others.
pub open spec fn all_places<H>(
    devices: Seq<(DeviceInfo, H)>,
    places: Seq<int>,
    first: bool,
) -> bool {
    forall|i: int|
        #![trigger places.contains(i)]
        places.contains(i) <==> 0 <= i < devices.len() && is_controller(devices[i].0)
            && came_before(devices, i) != first
}

proof fn lemma_held_if_came_before<H>(devices: Seq<(DeviceInfo, H)>, disconnect: bool)
    requires
        devices.len() > 0,
        is_controller(devices.last().0),
    ensures
        ({
            let entry = entry_for(devices.last().0, devices.last().1, disconnect);
            &&& entry is Some
            &&& taken_up(entry->0, devices.last(), disconnect)
            &&& holds(gathered(devices.drop_last(), disconnect), entry->0.controller)
                <==> came_before(devices, devices.len() - 1)
        }),
{
    let before = devices.drop_last();
    let was = gathered(before, disconnect);
    let at = devices.len() - 1;
    let entry = entry_for(devices.last().0, devices.last().1, disconnect)->0;
    gathering_is_exact(before, disconnect);
    if holds(was, entry.controller) {
        let k = choose|k: int|
            0 <= k < was.len() && (#[trigger] was[k]).controller.identity()
                == entry.controller.identity();
        assert(stands_for(before, was[k], disconnect));
        let i = choose|i: int|
            0 <= i < before.len() && entry_for((#[trigger] before[i]).0, before[i].1, disconnect)
                == Some(was[k]);
        assert(devices[i] == before[i]);
        assert(devices[i].0@ == devices[at].0@);
    }
    if came_before(devices, at) {
        let i = choose|i: int| 0 <= i < at && (#[trigger] devices[i]).0@ == devices[at].0@;
        assert(before[i] == devices[i]);
        assert(devices[i].0@.vendor_id == devices[at].0@.vendor_id);
        assert(devices[i].0@.product_id == devices[at].0@.product_id);
        let other = entry_for(before[i].0, before[i].1, disconnect);
        assert(holds(was, other->0.controller));
        let k = choose|k: int|
            0 <= k < was.len() && (#[trigger] was[k]).controller.identity()
                == other->0.controller.identity();
        assert(was[k].controller.identity() == entry.controller.identity());
    }
}

proof fn lemma_places<H>(devices: Seq<(DeviceInfo, H)>, disconnect: bool) -> (places: (
    Seq<int>,
    Seq<int>,
))
    ensures
        taken_in_order(gathered(devices, disconnect), devices, places.0, disconnect),
        taken_in_order(superfluous(devices, disconnect), devices, places.1, disconnect),
        all_places(devices, places.0, true),
        all_places(devices, places.1, false),
        places.0.len() + places.1.len() == controller_count(devices),
    decreases devices.len(),
{
    if devices.len() == 0 {
        (Seq::empty(), Seq::empty())
    } else {
        let before = devices.drop_last();
        let at = devices.len() - 1;
        let was = lemma_places(before, disconnect);
        let device = devices.last().0;
        assert forall|i: int| 0 <= i < before.len() implies came_before(devices, i) == came_before(
            before,
            i,
        ) by {
            if came_before(devices, i) {
                let j = choose|j: int| 0 <= j < i && (#[trigger] devices[j]).0@ == devices[i].0@;
                assert(before[j].0@ == before[i].0@);
            }
            if came_before(before, i) {
                let j = choose|j: int| 0 <= j < i && (#[trigger] before[j]).0@ == before[i].0@;
                assert(devices[j].0@ == devices[i].0@);
            }
        }
        if is_controller(device) {
            lemma_held_if_came_before(devices, disconnect);
        }
        let places = if !is_controller(device) {
            was
        } else if came_before(devices, at) {
            (was.0, was.1.push(at))
        } else {
            (was.0.push(at), was.1)
        };
        lemma_push_contains(was.0, at);
        lemma_push_contains(was.1, at);
        assert forall|i: int|
            #![trigger places.0.contains(i)]
            places.0.contains(i) <==> 0 <= i < devices.len() && is_controller(devices[i].0)
                && !came_before(devices, i) by {
            assert(was.0.contains(i) <==> 0 <= i < before.len() && is_controller(before[i].0)
                && !came_before(before, i));
        }
        assert forall|i: int|
            #![trigger places.1.contains(i)]
            places.1.contains(i) <==> 0 <= i < devices.len() && is_controller(devices[i].0)
                && came_before(devices, i) by {
            assert(was.1.contains(i) <==> 0 <= i < before.len() && is_controller(before[i].0)
                && came_before(before, i));
        }
        places
    }
}

proof fn lemma_push_contains(places: Seq<int>, at: int)
    ensures
        forall|i: int|
            #![trigger places.push(at).contains(i)]
            places.push(at).contains(i) <==> places.contains(i) || i == at,
{
    assert forall|i: int|
        #![trigger places.push(at).contains(i)]
        places.push(at).contains(i) <==> places.contains(i) || i == at by {
        let more = places.push(at);
        if places.contains(i) {
            let k = choose|k: int| 0 <= k < places.len() && places[k] == i;
            assert(more[k] == i);
        }
        if i == at {
            assert(more[places.len() as int] == i);
        }
    }
}

/// Every device with the ids of a controller is found, whatever else is told about it:
/// the registry then holds a controller with that device, the device's own handle is in
/// the registry or handed back, and nothing is lost or invented. It is handed back
/// exactly if the same device came before.
pub proof fn every_controller_is_gathered<H>(devices: Seq<(DeviceInfo, H)>, disconnect: bool)
    ensures
        forall|i: int|
            0 <= i < devices.len() && is_controller((#[trigger] devices[i]).0) ==> exists|k: int|
                0 <= k < gathered(devices, disconnect).len() && (#[trigger] gathered(
                    devices,
                    disconnect,
                )[k]).controller.device().device@ == devices[i].0@,
        forall|i: int|
            0 <= i < devices.len() && is_controller((#[trigger] devices[i]).0) && !came_before(
                devices,
                i,
            ) ==> exists|k: int|
                0 <= k < gathered(devices, disconnect).len() && taken_up(
                    #[trigger] gathered(devices, disconnect)[k],
                    devices[i],
                    disconnect,
                ),
        forall|i: int|
            0 <= i < devices.len() && is_controller((#[trigger] devices[i]).0) && came_before(
                devices,
                i,
            ) ==> exists|k: int|
                0 <= k < superfluous(devices, disconnect).len() && taken_up(
                    #[trigger] superfluous(devices, disconnect)[k],
                    devices[i],
                    disconnect,
                ),
        gathered(devices, disconnect).len() + superfluous(devices, disconnect).len()
            == controller_count(devices),
{
    let places = lemma_places(devices, disconnect);
    let found = gathered(devices, disconnect);
    let others = superfluous(devices, disconnect);
    assert forall|i: int|
        0 <= i < devices.len() && is_controller((#[trigger] devices[i]).0) && !came_before(
            devices,
            i,
        ) implies exists|k: int|
        0 <= k < found.len() && taken_up(#[trigger] found[k], devices[i], disconnect) by {
        assert(places.0.contains(i));
        let k = choose|k: int| 0 <= k < places.0.len() && places.0[k] == i;
        assert(taken_up(found[k], devices[i], disconnect));
    }
    assert forall|i: int|
        0 <= i < devices.len() && is_controller((#[trigger] devices[i]).0) && came_before(
            devices,
            i,
        ) implies exists|k: int|
        0 <= k < others.len() && taken_up(#[trigger] others[k], devices[i], disconnect) by {
        assert(places.1.contains(i));
        let k = choose|k: int| 0 <= k < places.1.len() && places.1[k] == i;
        assert(taken_up(others[k], devices[i], disconnect));
    }
    gathering_is_exact(devices, disconnect);
    assert forall|i: int|
        0 <= i < devices.len() && is_controller((#[trigger] devices[i]).0) implies exists|k: int|
        0 <= k < found.len() && (#[trigger] found[k]).controller.device().device@
            == devices[i].0@ by {
        let entry = entry_for(devices[i].0, devices[i].1, disconnect);
        assert(holds(found, entry->0.controller));
        let k = choose|k: int|
            0 <= k < found.len() && (#[trigger] found[k]).controller.identity()
                == entry->0.controller.identity();
        assert(found[k].controller.device().device@ == devices[i].0@);
    }
}

/// The registry holds the controllers in the order of their devices, each for the first
/// device that shows it; the ones handed back are in the order of their devices too.
pub proof fn gathering_keeps_order<H>(devices: Seq<(DeviceInfo, H)>, disconnect: bool)
    ensures
        exists|places: Seq<int>| #[trigger]
            taken_in_order(gathered(devices, disconnect), devices, places, disconnect)
                && all_places(devices, places, true),
        exists|places: Seq<int>| #[trigger]
            taken_in_order(superfluous(devices, disconnect), devices, places, disconnect)
                && all_places(devices, places, false),
{
    let places = lemma_places(devices, disconnect);
}

/// After a removal no entry has a controller with the id, whatever else is known of it,
/// and all others are there as before; every entry with the id is handed back, and none
/// without it. Both keep their order.
pub proof fn removal_by_id<H>(entries: Seq<Entry<H>>, id: Seq<char>)
    ensures
        ({
            let left = without_id(entries, id);
            let gone = with_id(entries, id);
            &&& forall|i: int|
                0 <= i < left.len() ==> (#[trigger] left[i]).controller.device().device.id@ != id
            &&& forall|i: int|
                0 <= i < gone.len() ==> (#[trigger] gone[i]).controller.device().device.id@ == id
            &&& forall|i: int|
                0 <= i < entries.len() && (#[trigger] entries[i]).controller.device().device.id@
                    == id ==> gone.contains(entries[i])
            &&& forall|i: int|
                0 <= i < entries.len() && (#[trigger] entries[i]).controller.device().device.id@
                    != id ==> left.contains(entries[i])
            &&& left.len() + gone.len() == entries.len()
            &&& left == entries.filter(
                |entry: Entry<H>| entry.controller.device().device.id@ != id,
            )
            &&& gone == entries.filter(
                |entry: Entry<H>| entry.controller.device().device.id@ == id,
            )
        }),
{
    let left = without_id(entries, id);
    let gone = with_id(entries, id);
    let stays = |entry: Entry<H>| entry.controller.device().device.id@ != id;
    let goes = |entry: Entry<H>| entry.controller.device().device.id@ == id;
    lemma_filter_alike(entries, |entry: Entry<H>| !has_id(entry, id), stays);
    lemma_filter_alike(entries, |entry: Entry<H>| has_id(entry, id), goes);
    lemma_split(entries, goes, stays);
    assert forall|i: int| 0 <= i < left.len() implies (
    #[trigger] left[i]).controller.device().device.id@ != id by {
        assert(stays(entries.filter(stays)[i]));
    }
    assert forall|i: int| 0 <= i < gone.len() implies (
    #[trigger] gone[i]).controller.device().device.id@ == id by {
        assert(goes(entries.filter(goes)[i]));
    }
    assert forall|i: int|
        0 <= i < entries.len() && (#[trigger] entries[i]).controller.device().device.id@
            == id implies gone.contains(entries[i]) by {
        assert(goes(entries[i]));
    }
    assert forall|i: int|
        0 <= i < entries.len() && (#[trigger] entries[i]).controller.device().device.id@
            != id implies left.contains(entries[i]) by {
        assert(stays(entries[i]));
    }
}

/// Whether an entry of `known` has a controller of the same type with the same device.
pub open spec fn is_known<H>(known: Seq<Entry<H>>, controller: Controller) -> bool {
    exists|i: int| 0 <= i < known.len() && alike((#[trigger] known[i]).controller, controller)
}

/// Of the controllers that are added, those are handed back for which one of the same
/// type with the same device was connected before, and all others are taken up; both
/// keep their order. Afterwards every one of them is connected.
pub proof fn extension_by_device<H>(known: Seq<Entry<H>>, new: Seq<Entry<H>>)
    ensures
        ({
            let taken = newcomers(known, new);
            let rejected = repeats(known, new);
            &&& taken == new.filter(|entry: Entry<H>| !is_known(known, entry.controller))
            &&& rejected == new.filter(|entry: Entry<H>| is_known(known, entry.controller))
            &&& taken.len() + rejected.len() == new.len()
            &&& forall|i: int|
                0 <= i < new.len() && is_known(known, (#[trigger] new[i]).controller)
                    ==> rejected.contains(new[i])
            &&& forall|i: int|
                0 <= i < new.len() && !is_known(known, (#[trigger] new[i]).controller)
                    ==> taken.contains(new[i])
            &&& forall|i: int|
                0 <= i < taken.len() ==> !is_known(known, (#[trigger] taken[i]).controller)
            &&& forall|i: int|
                0 <= i < rejected.len() ==> is_known(known, (#[trigger] rejected[i]).controller)
            &&& forall|i: int|
                0 <= i < new.len() ==> is_known(known + taken, (#[trigger] new[i]).controller)
        }),
{
    let taken = newcomers(known, new);
    let rejected = repeats(known, new);
    let fresh = |entry: Entry<H>| !is_known(known, entry.controller);
    let old_one = |entry: Entry<H>| is_known(known, entry.controller);
    assert forall|entry: Entry<H>| #[trigger] holds(known, entry.controller) == is_known(
        known,
        entry.controller,
    ) by {
        presence_by_device(known, entry.controller);
    }
    lemma_filter_alike(new, |entry: Entry<H>| !holds(known, entry.controller), fresh);
    lemma_filter_alike(new, |entry: Entry<H>| holds(known, entry.controller), old_one);
    lemma_split(new, old_one, fresh);
    assert forall|i: int| 0 <= i < taken.len() implies !is_known(
        known,
        (#[trigger] taken[i]).controller,
    ) by {
        assert(fresh(new.filter(fresh)[i]));
    }
    assert forall|i: int| 0 <= i < rejected.len() implies is_known(
        known,
        (#[trigger] rejected[i]).controller,
    ) by {
        assert(old_one(new.filter(old_one)[i]));
    }
    assert forall|i: int|
        0 <= i < new.len() && is_known(
            known,
            (#[trigger] new[i]).controller,
        ) implies rejected.contains(new[i]) by {
        assert(old_one(new[i]));
    }
    assert forall|i: int|
        0 <= i < new.len() && !is_known(
            known,
            (#[trigger] new[i]).controller,
        ) implies taken.contains(new[i]) by {
        assert(fresh(new[i]));
    }
    let all = known + taken;
    assert forall|i: int| 0 <= i < new.len() implies is_known(
        all,
        (#[trigger] new[i]).controller,
    ) by {
        if is_known(known, new[i].controller) {
            let k = choose|k: int|
                0 <= k < known.len() && alike((#[trigger] known[k]).controller, new[i].controller);
            assert(alike(all[k].controller, new[i].controller));
        } else {
            let k = choose|k: int| 0 <= k < taken.len() && taken[k] == new[i];
            assert(alike(all[known.len() + k].controller, new[i].controller));
        }
    }
}

proof fn lemma_filter_alike<H>(
    all: Seq<Entry<H>>,
    p: spec_fn(Entry<H>) -> bool,
    q: spec_fn(Entry<H>) -> bool,
)
    requires
        forall|entry: Entry<H>| #[trigger] p(entry) == q(entry),
    ensures
        all.filter(p) == all.filter(q),
    decreases all.len(),
{
    reveal(Seq::filter);
    if all.len() > 0 {
        lemma_filter_alike(all.drop_last(), p, q);
        assert(p(all.last()) == q(all.last()));
    }
}

/// A filter and its opposite part the entries between them.
proof fn lemma_split<H>(
    all: Seq<Entry<H>>,
    p: spec_fn(Entry<H>) -> bool,
    q: spec_fn(Entry<H>) -> bool,
)
    requires
        forall|entry: Entry<H>| #[trigger] p(entry) != q(entry),
    ensures
        all.filter(p).len() + all.filter(q).len() == all.len(),
        forall|i: int| 0 <= i < all.filter(p).len() ==> p(#[trigger] all.filter(p)[i]),
        forall|i: int| 0 <= i < all.filter(q).len() ==> q(#[trigger] all.filter(q)[i]),
        forall|i: int|
            0 <= i < all.len() && p(#[trigger] all[i]) ==> all.filter(p).contains(all[i]),
        forall|i: int|
            0 <= i < all.len() && q(#[trigger] all[i]) ==> all.filter(q).contains(all[i]),
    decreases all.len(),
{
    assert forall|i: int| 0 <= i < all.len() && p(#[trigger] all[i]) implies all.filter(
        p,
    ).contains(all[i]) by {
        all.lemma_filter_contains(p, i);
    }
    assert forall|i: int| 0 <= i < all.len() && q(#[trigger] all[i]) implies all.filter(
        q,
    ).contains(all[i]) by {
        all.lemma_filter_contains(q, i);
    }
    reveal(Seq::filter);
    if all.len() > 0 {
        lemma_split(all.drop_last(), p, q);
        assert(p(all.last()) != q(all.last()));
    }
}

} // verus!

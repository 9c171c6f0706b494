//! Disconnecting a Bluetooth device through the radios of the host.
//!
//! The radios are searched one after the other; each is asked to disconnect the
//! device, until one has done so or there is none left. A `Disconnect` says what to
//! ask the host system next and is told whether that worked.

use vstd::prelude::*;

verus! {

/// The control code that asks a radio to disconnect a device.
pub const IOCTL_BTH_DISCONNECT_DEVICE: u32 = 0x41000C;

/// What to ask the host system.
#[derive(Debug, Clone, Copy, PartialEq, Eq, Structural)]
pub enum RadioAction {
    /// Begin a search and open the first radio.
    FindFirstRadio,
    /// Send the open radio this control code with this address.
    Control { code: u32, address: u64 },
    /// Close the open radio; whether that works does not matter.
    CloseRadio,
    /// Open the next radio of the search.
    FindNextRadio,
    /// Close the search; whether that works does not matter.
    CloseSearch,
    /// Nothing more; this is whether a radio has disconnected the device.
    Finish { disconnected: bool },
    /// Nothing more; no search could be begun.
    Fail,
}

/// How far the search has come: what is to be asked next.
#[derive(Debug, Clone, Copy, PartialEq, Eq, Structural)]
pub enum Stage {
    Beginning,
    Asking,
    ClosingRadio,
    Advancing,
    ClosingSearch,
    Finished,
    Failed,
}

/// The search for a radio that disconnects a device.
#[derive(Debug, Clone, Copy, PartialEq, Eq, Structural)]
pub struct Disconnect {
    pub address: u64,
    pub stage: Stage,
    /// Whether the last radio that was asked has disconnected the device.
    pub disconnected: bool,
}

impl Disconnect {
    pub open spec fn initial(address: u64) -> Self {
        Disconnect { address, stage: Stage::Beginning, disconnected: false }
    }

    pub fn new(address: u64) -> (search: Self)
        ensures
            search == Self::initial(address),
    {
        Self { address, stage: Stage::Beginning, disconnected: false }
    }

    /// What is to be asked next.
    pub open spec fn wants(self) -> RadioAction {
        match self.stage {
            Stage::Beginning => RadioAction::FindFirstRadio,
            Stage::Asking => RadioAction::Control {
                code: IOCTL_BTH_DISCONNECT_DEVICE,
                address: self.address,
            },
            Stage::ClosingRadio => RadioAction::CloseRadio,
            Stage::Advancing => RadioAction::FindNextRadio,
            Stage::ClosingSearch => RadioAction::CloseSearch,
            Stage::Finished => RadioAction::Finish { disconnected: self.disconnected },
            Stage::Failed => RadioAction::Fail,
        }
    }

    /// What to ask the host system next.
    pub fn action(&self) -> (action: RadioAction)
        ensures
            action == self.wants(),
    {
        match self.stage {
            Stage::Beginning => RadioAction::FindFirstRadio,
            Stage::Asking => RadioAction::Control {
                code: IOCTL_BTH_DISCONNECT_DEVICE,
                address: self.address,
            },
            Stage::ClosingRadio => RadioAction::CloseRadio,
            Stage::Advancing => RadioAction::FindNextRadio,
            Stage::ClosingSearch => RadioAction::CloseSearch,
            Stage::Finished => RadioAction::Finish { disconnected: self.disconnected },
            Stage::Failed => RadioAction::Fail,
        }
    }

    /// Nothing more is to be asked.
    pub open spec fn is_over(self) -> bool {
        self.stage == Stage::Finished || self.stage == Stage::Failed
    }

    /// The search after what was asked worked, or did not.
    pub open spec fn after(self, worked: bool) -> Self {
        match self.stage {
            Stage::Beginning => Disconnect {
                stage: if worked {
                    Stage::Asking
                } else {
                    Stage::Failed
                },
                ..self
            },
            Stage::Asking => Disconnect {
                stage: Stage::ClosingRadio,
                disconnected: worked,
                ..self
            },
            Stage::ClosingRadio => Disconnect {
                stage: if self.disconnected {
                    Stage::ClosingSearch
                } else {
                    Stage::Advancing
                },
                ..self
            },
            Stage::Advancing => Disconnect {
                stage: if worked {
                    Stage::Asking
                } else {
                    Stage::ClosingSearch
                },
                ..self
            },
            Stage::ClosingSearch => Disconnect { stage: Stage::Finished, ..self },
            Stage::Finished => self,
            Stage::Failed => self,
        }
    }

    /// Takes note of whether what was asked has worked.
    pub fn advance(&mut self, worked: bool)
        ensures
            *final(self) == old(self).after(worked),
    {
        match self.stage {
            Stage::Beginning => {
                self.stage =
                if worked {
                    Stage::Asking
                } else {
                    Stage::Failed
                };
            },
            Stage::Asking => {
                self.disconnected = worked;
                self.stage = Stage::ClosingRadio;
            },
            Stage::ClosingRadio => {
                self.stage =
                if self.disconnected {
                    Stage::ClosingSearch
                } else {
                    Stage::Advancing
                };
            },
            Stage::Advancing => {
                self.stage =
                if worked {
                    Stage::Asking
                } else {
                    Stage::ClosingSearch
                };
            },
            Stage::ClosingSearch => {
                self.stage = Stage::Finished;
            },
            Stage::Finished => {},
            Stage::Failed => {},
        }
    }

    /// The search after this course of answers.
    pub open spec fn after_all(self, answers: Seq<bool>) -> Self
        decreases answers.len(),
    {
        if answers.len() == 0 {
            self
        } else {
            self.after_all(answers.drop_last()).after(answers.last())
        }
    }
}

/// What a course of answers has done to the host system.
pub struct Effects {
    /// Radios opened.
    pub opened: nat,
    /// Radios closed.
    pub closed: nat,
    /// Searches begun.
    pub begun: nat,
    /// Searches closed.
    pub ended: nat,
    /// What each radio that was asked to disconnect the device has answered.
    pub asked: Seq<bool>,
}

/// What the answers to a search for this address have done.
pub open spec fn effects(address: u64, answers: Seq<bool>) -> Effects
    decreases answers.len(),
{
    if answers.len() == 0 {
        Effects { opened: 0, closed: 0, begun: 0, ended: 0, asked: Seq::empty() }
    } else {
        let before = effects(address, answers.drop_last());
        let worked = answers.last();
        match Disconnect::initial(address).after_all(answers.drop_last()).wants() {
            RadioAction::FindFirstRadio => if worked {
                Effects { opened: before.opened + 1, begun: before.begun + 1, ..before }
            } else {
                before
            },
            RadioAction::Control { code, address } => Effects {
                asked: before.asked.push(worked),
                ..before
            },
            RadioAction::CloseRadio => Effects { closed: before.closed + 1, ..before },
            RadioAction::FindNextRadio => if worked {
                Effects { opened: before.opened + 1, ..before }
            } else {
                before
            },
            RadioAction::CloseSearch => Effects { ended: before.ended + 1, ..before },
            RadioAction::Finish { disconnected } => before,
            RadioAction::Fail => before,
        }
    }
}

proof fn course(address: u64, answers: Seq<bool>)
    ensures
        ({
            let search = Disconnect::initial(address).after_all(answers);
            let done = effects(address, answers);
            let radio_open = search.stage == Stage::Asking || search.stage == Stage::ClosingRadio;
            let search_open = radio_open || search.stage == Stage::Advancing || search.stage
                == Stage::ClosingSearch;
            &&& search.address == address
            &&& done.opened == done.closed + if radio_open {
                1nat
            } else {
                0
            }
            &&& done.begun == done.ended + if search_open {
                1nat
            } else {
                0
            }
            &&& done.begun == if search.stage == Stage::Beginning || search.stage
                == Stage::Failed {
                0nat
            } else {
                1
            }
            &&& (search.stage == Stage::Beginning || search.stage == Stage::Failed)
                <==> done.opened == 0
            &&& done.asked.len() == done.opened - if search.stage == Stage::Asking {
                1int
            } else {
                0
            }
            &&& forall|i: int| 0 <= i < done.asked.len() - 1 ==> !done.asked[i]
            &&& (search.stage == Stage::Asking || search.stage == Stage::Advancing) ==> forall|
                i: int,
            |
                0 <= i < done.asked.len() ==> !done.asked[i]
            &&& search.disconnected <==> done.asked.len() > 0 && done.asked.last()
            &&& search.stage == Stage::Beginning ==> answers.len() == 0
            &&& search.stage == Stage::Asking ==> answers.len() == 3 * done.opened - 2
            &&& search.stage == Stage::ClosingRadio ==> answers.len() == 3 * done.opened - 1
            &&& search.stage == Stage::Advancing ==> answers.len() == 3 * done.opened
            &&& search.stage == Stage::ClosingSearch ==> answers.len() <= 3 * done.opened + 1
        }),
    decreases answers.len(),
{
    if answers.len() > 0 {
        course(address, answers.drop_last());
    }
}

/// Whatever the host system answers, at most one radio and one search are open at
/// any time, and none is left open when the search is over.
pub proof fn handles_are_closed(address: u64, answers: Seq<bool>)
    ensures
        ({
            let done = effects(address, answers);
            &&& done.closed <= done.opened <= done.closed + 1
            &&& done.ended <= done.begun <= done.ended + 1
            &&& done.begun <= 1
            &&& Disconnect::initial(address).after_all(answers).is_over() ==> done.opened
                == done.closed && done.begun == done.ended
        }),
{
    course(address, answers);
}

/// Every radio is asked at most once, always to disconnect the device with the
/// address given, and none after one that has done so. A search that is over says
/// whether one has; if none has, all radios that were found have been asked.
pub proof fn radios_are_asked_in_turn(address: u64, answers: Seq<bool>)
    ensures
        ({
            let search = Disconnect::initial(address).after_all(answers);
            let done = effects(address, answers);
            &&& search.wants() matches RadioAction::Control { code, address: a } ==> code
                == IOCTL_BTH_DISCONNECT_DEVICE && a == address
            &&& done.asked.len() <= done.opened
            &&& forall|i: int| 0 <= i < done.asked.len() - 1 ==> !done.asked[i]
            &&& search.stage == Stage::Finished ==> search.wants() == (RadioAction::Finish {
                disconnected: done.asked.contains(true),
            })
            &&& search.stage == Stage::Finished ==> done.asked.len() == done.opened
        }),
{
    course(address, answers);
    let done = effects(address, answers);
    if done.asked.contains(true) {
        let i = choose|i: int| 0 <= i < done.asked.len() && done.asked[i] == true;
        assert(done.asked[i]);
    } else if done.asked.len() > 0 && done.asked.last() {
        assert(done.asked[done.asked.len() - 1] == true);
    }
}

/// A search fails exactly when the first radio is not found: the first answer says
/// so, and no later one changes it.
pub proof fn fails_without_radio(address: u64, answers: Seq<bool>)
    requires
        answers.len() > 0,
    ensures
        Disconnect::initial(address).after_all(answers).stage == Stage::Failed <==> !answers[0],
    decreases answers.len(),
{
    if answers.len() > 1 {
        fails_without_radio(address, answers.drop_last());
        course(address, answers.drop_last());
    } else {
        assert(answers.drop_last().len() == 0);
        assert(Disconnect::initial(address).after_all(answers.drop_last())
            == Disconnect::initial(address));
    }
}

/// A search that is not over has taken at most three answers for each radio found,
/// and one more: with finitely many radios it comes to an end.
pub proof fn search_ends(address: u64, answers: Seq<bool>)
    requires
        !Disconnect::initial(address).after_all(answers).is_over(),
    ensures
        answers.len() <= 3 * effects(address, answers).opened + 1,
{
    course(address, answers);
}

/// Which of the radios disconnects the device does not depend on its address: the same
/// answers lead any two searches equally far.
pub proof fn every_address_is_searched_alike(address: u64, other: u64, answers: Seq<bool>)
    ensures
        ({
            let x = Disconnect::initial(address).after_all(answers);
            let y = Disconnect::initial(other).after_all(answers);
            &&& x.stage == y.stage
            &&& x.disconnected == y.disconnected
            &&& x.address == address
            &&& y.address == other
        }),
    decreases answers.len(),
{
    if answers.len() > 0 {
        every_address_is_searched_alike(address, other, answers.drop_last());
    }
}

/// A search that ends without a radio that has disconnected the device has come to the
/// last one: it has asked for another radio and was told that there is none.
pub proof fn gives_up_after_the_last_radio(address: u64, answers: Seq<bool>)
    requires
        Disconnect::initial(address).after_all(answers).wants() == (RadioAction::Finish {
            disconnected: false,
        }),
    ensures
        exists|k: int|
            0 <= k < answers.len() && !answers[k] && #[trigger] Disconnect::initial(
                address,
            ).after_all(answers.take(k)).wants() == RadioAction::FindNextRadio,
{
    lemma_gives_up(address, answers);
}

proof fn lemma_gives_up(address: u64, answers: Seq<bool>)
    ensures
        ({
            let search = Disconnect::initial(address).after_all(answers);
            (search.stage == Stage::ClosingSearch || search.stage == Stage::Finished)
                && !search.disconnected ==> exists|k: int|
                0 <= k < answers.len() && !answers[k] && #[trigger] Disconnect::initial(
                    address,
                ).after_all(answers.take(k)).wants() == RadioAction::FindNextRadio
        }),
    decreases answers.len(),
{
    if answers.len() > 0 {
        let before = answers.drop_last();
        let start = Disconnect::initial(address);
        let was = start.after_all(before);
        let search = start.after_all(answers);
        lemma_gives_up(address, before);
        if (search.stage == Stage::ClosingSearch || search.stage == Stage::Finished)
            && !search.disconnected {
            if was.stage == Stage::Advancing {
                let k = answers.len() - 1;
                assert(answers.take(k) =~= before);
                assert(start.after_all(answers.take(k)).wants() == RadioAction::FindNextRadio);
            } else {
                let k = choose|k: int|
                    0 <= k < before.len() && !before[k] && #[trigger] start.after_all(
                        before.take(k),
                    ).wants() == RadioAction::FindNextRadio;
                assert(before.take(k) =~= answers.take(k));
                assert(answers[k] == before[k]);
            }
        }
    }
}

/// Whether these are answers of a host with these radios, each of which would
/// disconnect the device or not: a radio is found as long as there is another, and one
/// that is asked answers for itself. How closing goes is left open.
pub open spec fn answered_by(radios: Seq<bool>, address: u64, answers: Seq<bool>) -> bool
    decreases answers.len(),
{
    answers.len() > 0 ==> {
        let before = answers.drop_last();
        let found = effects(address, before).opened;
        &&& answered_by(radios, address, before)
        &&& match Disconnect::initial(address).after_all(before).wants() {
            RadioAction::FindFirstRadio => answers.last() == (found < radios.len()),
            RadioAction::FindNextRadio => answers.last() == (found < radios.len()),
            RadioAction::Control { code, address } => answers.last() == radios[found - 1],
            _ => true,
        }
    }
}

proof fn lemma_host(radios: Seq<bool>, address: u64, answers: Seq<bool>)
    requires
        answered_by(radios, address, answers),
    ensures
        ({
            let search = Disconnect::initial(address).after_all(answers);
            let done = effects(address, answers);
            &&& done.opened <= radios.len()
            &&& done.asked.len() <= done.opened
            &&& forall|i: int| 0 <= i < done.asked.len() ==> done.asked[i] == radios[i]
            &&& (search.stage == Stage::ClosingSearch || search.stage == Stage::Finished)
                && !search.disconnected ==> done.asked.len() == radios.len()
            &&& search.stage == Stage::Failed ==> radios.len() == 0
            &&& search.stage != Stage::Failed && search.stage != Stage::Beginning ==> radios.len()
                > 0
            &&& search.is_over() || answers.len() <= 3 * done.opened + 1
        }),
    decreases answers.len(),
{
    course(address, answers);
    if answers.len() > 0 {
        course(address, answers.drop_last());
        lemma_host(radios, address, answers.drop_last());
    }
}

/// On a host with these radios the search ends after at most three answers for each
/// radio and two more, for every address. It fails exactly if there is no radio;
/// otherwise it says whether one of them, no matter which, has disconnected the device.
/// They are asked in their order, up to the first that does.
pub proof fn all_radios_of_a_host_are_tried(radios: Seq<bool>, address: u64, answers: Seq<bool>)
    requires
        answered_by(radios, address, answers),
    ensures
        ({
            let last = Disconnect::initial(address).after_all(answers).wants();
            let asked = effects(address, answers).asked;
            &&& answers.len() >= 3 * radios.len() + 2 ==> last is Finish || last is Fail
            &&& last is Fail ==> radios.len() == 0
            &&& last is Finish ==> radios.len() > 0 && last == (RadioAction::Finish {
                disconnected: radios.contains(true),
            })
            &&& last matches RadioAction::Control { code, address: a } ==> code == 0x41000C && a
                == address
            &&& asked.len() <= radios.len() && asked == radios.take(asked.len() as int)
            &&& forall|i: int| 0 <= i < asked.len() - 1 ==> !radios[i]
            &&& last is Finish && !radios.contains(true) ==> asked == radios
        }),
{
    lemma_host(radios, address, answers);
    course(address, answers);
    let search = Disconnect::initial(address).after_all(answers);
    let asked = effects(address, answers).asked;
    assert(asked =~= radios.take(asked.len() as int));
    assert forall|i: int| 0 <= i < asked.len() - 1 implies !radios[i] by {
        assert(!asked[i]);
    }
    if search.stage == Stage::Finished {
        if search.disconnected {
            assert(radios[asked.len() - 1] == true);
        } else {
            assert(asked =~= radios);
            if radios.contains(true) {
                let i = choose|i: int| 0 <= i < radios.len() && radios[i] == true;
                assert(asked[i]);
            }
        }
    }
}

/// A search over these radios that begins anew can always be answered by the host that
/// has them: there is such a course of answers of every length.
pub proof fn a_host_can_always_answer(radios: Seq<bool>, address: u64, length: nat)
    ensures
        exists|answers: Seq<bool>|
            answers.len() == length && #[trigger] answered_by(radios, address, answers),
    decreases length,
{
    if length == 0 {
        assert(answered_by(radios, address, Seq::empty()));
    } else {
        a_host_can_always_answer(radios, address, (length - 1) as nat);
        let before = choose|answers: Seq<bool>|
            answers.len() == length - 1 && #[trigger] answered_by(radios, address, answers);
        let found = effects(address, before).opened;
        let reply = match Disconnect::initial(address).after_all(before).wants() {
            RadioAction::FindFirstRadio => found < radios.len(),
            RadioAction::FindNextRadio => found < radios.len(),
            RadioAction::Control { code, address } => radios[found - 1],
            _ => true,
        };
        let answers = before.push(reply);
        assert(answers.drop_last() =~= before);
        assert(answered_by(radios, address, answers));
    }
}

/// What each answer leads to, wherever the search stands: a radio that was found is
/// asked to disconnect the device, one that was asked is closed, and the next is looked
/// for unless it has done so. The address never changes, and only the answer of a radio
/// that was asked decides whether the device is disconnected.
pub proof fn every_answer_leads_on(search: Disconnect, worked: bool)
    ensures
        ({
            let next = search.after(worked);
            let ask = RadioAction::Control { code: 0x41000C, address: search.address };
            &&& next.address == search.address
            &&& next.disconnected == if search.wants() is Control {
                worked
            } else {
                search.disconnected
            }
            &&& search.wants() is FindFirstRadio ==> next.wants() == if worked {
                ask
            } else {
                RadioAction::Fail
            }
            &&& search.wants() is Control ==> search.wants() == ask && next.wants()
                == RadioAction::CloseRadio
            &&& search.wants() is CloseRadio ==> next.wants() == if search.disconnected {
                RadioAction::CloseSearch
            } else {
                RadioAction::FindNextRadio
            }
            &&& search.wants() is FindNextRadio ==> next.wants() == if worked {
                ask
            } else {
                RadioAction::CloseSearch
            }
            &&& search.wants() is CloseSearch ==> next.wants() == (RadioAction::Finish {
                disconnected: search.disconnected,
            })
            &&& search.wants() is Finish ==> search.wants() == (RadioAction::Finish {
                disconnected: search.disconnected,
            }) && next == search
            &&& search.wants() is Fail ==> next == search
        }),
{
}

/// A search begins by looking for the first radio, with the address given and nothing
/// disconnected yet.
pub proof fn search_begins(address: u64)
    ensures
        Disconnect::initial(address).wants() == RadioAction::FindFirstRadio,
        Disconnect::initial(address).address == address,
        !Disconnect::initial(address).disconnected,
{
}

} // verus!

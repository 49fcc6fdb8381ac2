//! Creating an anonymous file for shared memory.
use crate::text::{
    decimal, law_decimal_is_injective, law_decimal_reads_back, number, push_decimal,
};
use vstd::prelude::*;

verus! {

/// An error of the operating system.
#[derive(Debug, Clone, Copy, PartialEq, Eq, Structural)]
pub enum Errno {
    /// The call was interrupted.
    EINTR,
    /// The system has no such call.
    ENOSYS,
    /// The file exists.
    EEXIST,
    /// Any other error, by its number.
    Other(i32),
}

/// What to do next to get a file.
#[derive(Debug, Clone, Copy, PartialEq, Eq, Structural)]
pub enum ShmStep {
    /// Create a file that never had a name.
    MemfdCreate,
    /// Forbid to shrink the file and to change its seals.
    Seal,
    /// Read the clock, to make up a name.
    ReadClock,
    /// Create a shared memory object that does not exist yet.
    ShmOpen,
    /// Remove the name of the object.
    ShmUnlink,
    /// Close the object, whose name could not be removed for this reason.
    Close(Errno),
    /// Nothing: the file is there.
    Return,
    /// Nothing: there will be no file.
    Fail(Errno),
}

/// What the system has answered.
#[derive(Debug, Clone, Copy, PartialEq, Eq, Structural)]
pub enum ShmEvent {
    Called,
    Refused(Errno),
    /// The nanoseconds since the last full second.
    Clock(u32),
}

impl ShmStep {
    /// The step after an answer of the system.
    pub open spec fn following(self, event: ShmEvent) -> ShmStep {
        match (self, event) {
            (ShmStep::MemfdCreate, ShmEvent::Called) => ShmStep::Seal,
            (ShmStep::MemfdCreate, ShmEvent::Refused(Errno::EINTR)) => ShmStep::MemfdCreate,
            (ShmStep::MemfdCreate, ShmEvent::Refused(Errno::ENOSYS)) => ShmStep::ReadClock,
            (ShmStep::MemfdCreate, ShmEvent::Refused(errno)) => ShmStep::Fail(errno),
            // The seals are only an optimization.
            (ShmStep::Seal, _) => ShmStep::Return,
            (ShmStep::ReadClock, _) => ShmStep::ShmOpen,
            (ShmStep::ShmOpen, ShmEvent::Called) => ShmStep::ShmUnlink,
            (ShmStep::ShmOpen, ShmEvent::Refused(Errno::EEXIST)) => ShmStep::ReadClock,
            (ShmStep::ShmOpen, ShmEvent::Refused(Errno::EINTR)) => ShmStep::ShmOpen,
            (ShmStep::ShmOpen, ShmEvent::Refused(errno)) => ShmStep::Fail(errno),
            (ShmStep::ShmUnlink, ShmEvent::Called) => ShmStep::Return,
            (ShmStep::ShmUnlink, ShmEvent::Refused(errno)) => ShmStep::Close(errno),
            (ShmStep::Close(errno), ShmEvent::Called) => ShmStep::Fail(errno),
            (ShmStep::Close(_), ShmEvent::Refused(errno)) => ShmStep::Fail(errno),
            _ => self,
        }
    }

    /// The system can answer so in this step.
    pub open spec fn expects(self, event: ShmEvent) -> bool {
        match self {
            ShmStep::ReadClock => event is Clock,
            ShmStep::Return | ShmStep::Fail(_) => false,
            _ => !(event is Clock),
        }
    }
}

/// What the name is made of before the clock has been read: a number of
/// nanoseconds that no clock gives.
pub const NO_NANOS: u32 = 0xffff_ffff;

/// The nanoseconds for a new name, when the clock reads `clock` and the name made of
/// `refused` is not to be used: those that the clock reads, or where these are
/// refused, the following ones within the second.
pub open spec fn fresh_nanos(refused: u32, clock: u32) -> u32 {
    if clock != refused {
        clock
    } else if clock < 999_999_999 {
        (clock + 1) as u32
    } else {
        0
    }
}

/// A file that is being created.
#[derive(Debug, Clone, Copy, PartialEq, Eq, Structural)]
pub struct ShmFile {
    pub step: ShmStep,
    /// The nanoseconds that the name is made of.
    pub nanos: u32,
    /// A descriptor is held.
    pub open: bool,
    /// The file that was created still has a name.
    pub named: bool,
}

/// The name made of a number of nanoseconds.
pub open spec fn handle_text(nanos: u32) -> Seq<char> {
    "/wayshot-"@ + decimal(nanos as nat)
}

impl ShmFile {
    /// A descriptor is held from the moment on at which a file was created, until
    /// it is given up; the file has a name only between the creation of a named
    /// object and the removal of its name.
    pub open spec fn wf(self) -> bool {
        &&& self.open <==> self.step is Seal || self.step is ShmUnlink || self.step is Close
            || self.step is Return
        &&& self.step is ShmUnlink || self.step is Close ==> self.named
        &&& self.step is Return ==> !self.named
        &&& self.step is MemfdCreate || self.step is Seal || self.step is ReadClock
            || self.step is ShmOpen ==> !self.named
    }

    /// The file after an answer of the system.
    pub open spec fn after(self, event: ShmEvent) -> Self {
        let step = self.step.following(event);
        ShmFile {
            step,
            nanos: match event {
                ShmEvent::Clock(clock) => fresh_nanos(self.nanos, clock),
                _ => self.nanos,
            },
            open: step is Seal || step is ShmUnlink || step is Close || step is Return,
            named: match (self.step, event) {
                (ShmStep::ShmOpen, ShmEvent::Called) => true,
                (ShmStep::ShmUnlink, ShmEvent::Called) => false,
                _ => self.named,
            },
        }
    }

    /// Starts to create a file; `memfd` says that the system can create files that
    /// never had a name.
    pub fn begin(memfd: bool) -> (res: Self)
        ensures
            res.wf(),
            res.step == if memfd {
                ShmStep::MemfdCreate
            } else {
                ShmStep::ReadClock
            },
            res.nanos == NO_NANOS,
    {
        ShmFile {
            step: if memfd {
                ShmStep::MemfdCreate
            } else {
                ShmStep::ReadClock
            },
            nanos: NO_NANOS,
            open: false,
            named: false,
        }
    }

    /// The name of the shared memory object.
    pub fn handle(&self) -> (res: String)
        ensures
            res@ == handle_text(self.nanos),
    {
        let mut text = "/wayshot-".to_owned();
        push_decimal(&mut text, self.nanos);
        text
    }

    /// Goes on after an answer of the system. A name that was refused is not made
    /// again.
    pub fn advance(&mut self, event: ShmEvent)
        requires
            old(self).wf(),
            old(self).step.expects(event),
        ensures
            final(self).wf(),
            *final(self) == old(self).after(event),
            old(self).step is ReadClock ==> final(self).nanos != old(self).nanos,
    {
        match self.step {
            ShmStep::MemfdCreate => match event {
                ShmEvent::Refused(Errno::EINTR) => {},
                ShmEvent::Refused(Errno::ENOSYS) => self.step = ShmStep::ReadClock,
                ShmEvent::Refused(errno) => self.step = ShmStep::Fail(errno),
                _ => {
                    self.open = true;
                    self.step = ShmStep::Seal;
                },
            },
            ShmStep::Seal => self.step = ShmStep::Return,
            ShmStep::ReadClock => {
                if let ShmEvent::Clock(clock) = event {
                    self.nanos =
                    if clock != self.nanos {
                        clock
                    } else if clock < 999_999_999 {
                        clock + 1
                    } else {
                        0
                    };
                }
                self.step = ShmStep::ShmOpen;
            },
            ShmStep::ShmOpen => match event {
                ShmEvent::Refused(Errno::EEXIST) => self.step = ShmStep::ReadClock,
                ShmEvent::Refused(Errno::EINTR) => {},
                ShmEvent::Refused(errno) => self.step = ShmStep::Fail(errno),
                _ => {
                    self.open = true;
                    self.named = true;
                    self.step = ShmStep::ShmUnlink;
                },
            },
            ShmStep::ShmUnlink => match event {
                ShmEvent::Refused(errno) => self.step = ShmStep::Close(errno),
                _ => {
                    self.named = false;
                    self.step = ShmStep::Return;
                },
            },
            ShmStep::Close(unlink_errno) => {
                self.open = false;
                self.step = match event {
                    ShmEvent::Refused(errno) => ShmStep::Fail(errno),
                    _ => ShmStep::Fail(unlink_errno),
                };
            },
            ShmStep::Return | ShmStep::Fail(_) => {},
        }
    }
}

/// A file that was created is at hand and has no name by which others could open
/// it; where none was created, no descriptor is left behind.
pub proof fn law_outcome_is_clean(file: ShmFile)
    requires
        file.wf(),
    ensures
        file.step is Return ==> file.open && !file.named,
        file.step is Fail ==> !file.open,
{
}

/// Names made of different numbers are different.
pub proof fn law_handles_are_distinct(a: u32, b: u32)
    requires
        handle_text(a) == handle_text(b),
    ensures
        a == b,
{
    let prefix = "/wayshot-"@;
    assert(decimal(a as nat) =~= handle_text(a).skip(prefix.len() as int));
    assert(decimal(b as nat) =~= handle_text(b).skip(prefix.len() as int));
    law_decimal_is_injective(a as nat, b as nat);
}

/// Where the name of an object is taken, the next attempt is made with another name,
/// whatever the clock reads: one object cannot stand in the way for ever.
pub proof fn law_taken_name_is_changed(file: ShmFile, clock: u32)
    requires
        file.wf(),
        file.step is ShmOpen,
    ensures
        ({
            let taken = file.after(ShmEvent::Refused(Errno::EEXIST));
            let next = taken.after(ShmEvent::Clock(clock));
            &&& taken.step.expects(ShmEvent::Clock(clock))
            &&& next.step is ShmOpen
            &&& handle_text(next.nanos) != handle_text(file.nanos)
        }),
{
    let taken = file.after(ShmEvent::Refused(Errno::EEXIST));
    let next = taken.after(ShmEvent::Clock(clock));
    if handle_text(next.nanos) == handle_text(file.nanos) {
        law_handles_are_distinct(next.nanos, file.nanos);
    }
}

/// The error that is reported is the one of the call that was decisive: an
/// interrupted call is repeated, a missing call or a taken name leads to another
/// attempt, and a name that cannot be removed is reported only after the object has
/// been closed.
pub proof fn law_reported_error(step: ShmStep, event: ShmEvent)
    requires
        step.expects(event),
    ensures
        step.following(event) matches ShmStep::Fail(errno) ==> {
            ||| event == ShmEvent::Refused(errno)
            ||| step == ShmStep::Close(errno) && event is Called
        },
        event == ShmEvent::Refused(Errno::EINTR) && (step is MemfdCreate || step is ShmOpen)
            ==> step.following(event) == step,
        event == ShmEvent::Refused(Errno::ENOSYS) && step is MemfdCreate ==> step.following(event)
            == ShmStep::ReadClock,
        event == ShmEvent::Refused(Errno::EEXIST) && step is ShmOpen ==> step.following(event)
            == ShmStep::ReadClock,
        step is ShmUnlink ==> !(step.following(event) is Fail),
{
}

/// How a file comes about. Without a name: it is created and sealed, whether or not the
/// seals are accepted, and returned. With a name: the object is created, its name is
/// removed, and it is returned; where the name cannot be removed, the object is closed
/// and the reason reported, unless closing it fails too. Any refusal that is not answered
/// by another attempt ends the attempts.
pub proof fn law_how_a_file_comes_about(answer: ShmEvent, errno: Errno, second: Errno)
    requires
        !(answer is Clock),
    ensures
        ShmStep::MemfdCreate.following(ShmEvent::Called) == ShmStep::Seal,
        ShmStep::Seal.following(answer) == ShmStep::Return,
        errno != Errno::EINTR && errno != Errno::ENOSYS ==> ShmStep::MemfdCreate.following(
            ShmEvent::Refused(errno),
        ) == ShmStep::Fail(errno),
        forall|clock: u32| #[trigger]
            ShmStep::ReadClock.following(ShmEvent::Clock(clock)) == ShmStep::ShmOpen,
        ShmStep::ShmOpen.following(ShmEvent::Called) == ShmStep::ShmUnlink,
        errno != Errno::EINTR && errno != Errno::EEXIST ==> ShmStep::ShmOpen.following(
            ShmEvent::Refused(errno),
        ) == ShmStep::Fail(errno),
        ShmStep::ShmUnlink.following(ShmEvent::Called) == ShmStep::Return,
        ShmStep::ShmUnlink.following(ShmEvent::Refused(errno)) == ShmStep::Close(errno),
        ShmStep::Close(errno).following(ShmEvent::Called) == ShmStep::Fail(errno),
        ShmStep::Close(errno).following(ShmEvent::Refused(second)) == ShmStep::Fail(second),
{
}

/// A name is a fixed text and behind it, in decimal, the nanoseconds that the clock read;
/// other nanoseconds are taken only where the name made of these was just refused.
pub proof fn law_name_is_made_of_the_clock(file: ShmFile, clock: u32)
    requires
        file.step is ReadClock,
    ensures
        ({
            let next = file.after(ShmEvent::Clock(clock));
            let name = handle_text(next.nanos);
            let fixed = "/wayshot-"@;
            &&& clock != file.nanos ==> next.nanos == clock
            &&& next.nanos != file.nanos
            &&& fixed.is_prefix_of(name)
            &&& number(name.skip(fixed.len() as int)) == next.nanos
        }),
{
    let next = file.after(ShmEvent::Clock(clock));
    let name = handle_text(next.nanos);
    let fixed = "/wayshot-"@;
    law_decimal_reads_back(next.nanos as nat);
    assert(name.skip(fixed.len() as int) =~= decimal(next.nanos as nat));
    assert(fixed =~= name.subrange(0, fixed.len() as int));
}

/// A descriptor is held exactly while a file is there that has not been given up, and
/// only an answer of the system changes that: a file that was created is held, and one
/// that was closed is not.
pub proof fn law_descriptor_follows_the_file(file: ShmFile, event: ShmEvent)
    requires
        file.wf(),
        file.step.expects(event),
    ensures
        ({
            let next = file.after(event);
            let creates = (file.step == ShmStep::MemfdCreate || file.step == ShmStep::ShmOpen)
                && event == ShmEvent::Called;
            let closes = file.step is Close;
            &&& creates ==> !file.open && next.open
            &&& closes ==> file.open && !next.open
            &&& !creates && !closes ==> next.open == file.open
            &&& next.named <==> (file.step == ShmStep::ShmOpen && event == ShmEvent::Called) || (
            file.named && !(file.step == ShmStep::ShmUnlink && event == ShmEvent::Called))
        }),
{
}

} // verus!

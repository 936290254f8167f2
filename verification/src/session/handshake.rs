//! The handshake that opens a session: the kernel's INIT request, the filesystem's answer to it,
//! the choice of the transport and the reply, as a machine that tells its driver what to do next
//! and is told what came of it.

use crate::errno::{Errno, EIO};
use crate::error::Error;
use crate::ll::fuse_abi::FUSE_KERNEL_VERSION;
use crate::session::{Session, Version};
use vstd::prelude::*;

verus! {

/// Capability bit: the kernel can serve the connection over io_uring.
pub const FUSE_OVER_IO_URING: u64 = 0x200_0000_0000;

/// Number of the capability bit that says that the init messages carry a second word of flags.
pub const FUSE_INIT_EXT_BIT: u32 = 30;

/// What was read while the session waits for INIT.
#[derive(Debug, Clone, Copy, PartialEq, Eq, Structural)]
pub enum Received {
    /// Reading failed with this error number.
    Failed(i32),
    /// The bytes are no request.
    Unparsable,
    /// The request has no operation that can be read.
    BadOperation,
    /// Another request than INIT.
    NotInit,
    /// INIT of a kernel that speaks `version` and advertises `capabilities`.
    Init { version: Version, capabilities: u64 },
}

/// What came of the last action.
#[derive(Debug, Clone, Copy, PartialEq, Eq)]
pub enum HandshakeEvent {
    /// A request was read, or reading failed.
    Received(Received),
    /// The filesystem was initialized and requests these capabilities.
    Initialized { requested: u64 },
    /// The filesystem refused, with its error number when it has one.
    Refused(Option<i32>),
    /// There is no filesystem to initialize.
    NoFilesystem,
    /// The rings were created, or could not be.
    Rings(bool),
    /// The INIT reply was written, or could not be.
    Sent(Result<(), Error>),
    /// The rings registered, or did not.
    Started(Result<(), Error>),
}

/// Why a handshake ends without a session.
#[derive(Debug, Clone, Copy, PartialEq, Eq, Structural)]
pub enum HandshakeError {
    /// For this reason.
    Session(Error),
    /// With the error of the filesystem.
    Filesystem,
}

/// What the driver does next.
#[derive(Debug, Clone, Copy, PartialEq, Eq)]
pub enum HandshakeAction {
    /// Read a request; answer `Received`.
    Receive,
    /// Reply with the supported version alone, then read again; answer `Received`.
    ReplyVersion,
    /// Initialize the filesystem; answer `Initialized`, `Refused` or `NoFilesystem`.
    InitFilesystem,
    /// Create the rings; answer `Rings`.
    CreateRings,
    /// Write the INIT reply that agrees to these of the requested capabilities; answer `Sent`.
    /// `fallback` tells why io_uring was requested but does not serve.
    Reply { requested: u64, agreed: u64, fallback: Option<Fallback> },
    /// Have the rings register; answer `Started`.
    StartRings,
    /// End the handshake, after an errno reply when there is one.
    Return { reply: Option<Errno>, result: Result<(), HandshakeError> },
}

/// Why io_uring was requested but `/dev/fuse` serves.
#[derive(Debug, Clone, Copy, PartialEq, Eq, Structural)]
pub enum Fallback {
    /// The kernel did not advertise it.
    NotAdvertised,
    /// The rings could not be created.
    NoRings,
}

#[derive(Debug, Clone, Copy, PartialEq, Eq, Structural)]
pub enum HandshakePhase {
    Receiving,
    Initializing { version: Version, capabilities: u64 },
    CreatingRings { version: Version, capabilities: u64, requested: u64 },
    Replying,
    Starting,
    Ended,
}

/// A handshake in progress.
#[derive(Debug, Clone, Copy, PartialEq, Eq, Structural)]
pub struct Handshake {
    pub phase: HandshakePhase,
}

/// Whether `capabilities` hold the io_uring flag.
pub open spec fn offers_io_uring(capabilities: u64) -> bool {
    capabilities & FUSE_OVER_IO_URING == FUSE_OVER_IO_URING
}

/// Whether the kernel's version is below the oldest supported one, 7.6.
pub open spec fn too_old(v: Version) -> bool {
    v.0 < 7 || (v.0 == 7 && v.1 < 6)
}

impl Session {
    /// The session after the kernel's INIT was agreed on.
    pub open spec fn agreed(
        self,
        version: Version,
        capabilities: u64,
        requested: u64,
        ring: bool,
    ) -> Session {
        Session {
            proto_version: Some(version),
            negotiated: capabilities & requested,
            kernel_capabilities: capabilities,
            ring,
            ..self
        }
    }
}

impl Handshake {
    pub open spec fn at(self, phase: HandshakePhase) -> Handshake {
        Handshake { phase }
    }

    /// The handshake ends.
    pub open spec fn ended(self, s: Session, reply: Option<Errno>, e: HandshakeError) -> (
        Handshake,
        Session,
        HandshakeAction,
    ) {
        (
            self.at(HandshakePhase::Ended),
            s,
            HandshakeAction::Return { reply, result: Err(e) },
        )
    }

    /// Whether the machine can take `event`.
    pub open spec fn accepts(self, event: HandshakeEvent) -> bool {
        match self.phase {
            HandshakePhase::Receiving => event is Received,
            HandshakePhase::Initializing { .. } => event is Initialized || event is Refused
                || event is NoFilesystem,
            HandshakePhase::CreatingRings { .. } => event is Rings,
            HandshakePhase::Replying => event is Sent,
            HandshakePhase::Starting => event is Started,
            HandshakePhase::Ended => false,
        }
    }

    /// What is done about a request, or about the lack of one.
    pub open spec fn received(self, s: Session, received: Received) -> (
        Handshake,
        Session,
        HandshakeAction,
    ) {
        match received {
            Received::Failed(code) => self.ended(
                s,
                None,
                HandshakeError::Session(
                    if s.numbers.disconnected(code) {
                        Error::Disconnected
                    } else {
                        Error::Os(code)
                    },
                ),
            ),
            Received::Unparsable => self.ended(
                s,
                None,
                HandshakeError::Session(Error::Unparsable),
            ),
            Received::BadOperation => self.ended(
                s,
                None,
                HandshakeError::Session(Error::BadOperation),
            ),
            Received::NotInit => self.ended(
                s,
                Some(Errno(EIO)),
                HandshakeError::Session(Error::NotInit),
            ),
            Received::Init { version, capabilities } => {
                if version.0 > FUSE_KERNEL_VERSION {
                    // A second INIT with a compatible version follows
                    (self, s, HandshakeAction::ReplyVersion)
                } else if too_old(version) {
                    self.ended(
                        s,
                        Some(Errno(s.numbers.eproto)),
                        HandshakeError::Session(
                            Error::UnsupportedAbi { major: version.0, minor: version.1 },
                        ),
                    )
                } else {
                    (
                        self.at(HandshakePhase::Initializing { version, capabilities }),
                        s,
                        HandshakeAction::InitFilesystem,
                    )
                }
            },
        }
    }

    /// The capabilities are settled; the reply follows.
    pub open spec fn reply(
        self,
        s: Session,
        version: Version,
        capabilities: u64,
        requested: u64,
        ring: bool,
        fallback: Option<Fallback>,
    ) -> (Handshake, Session, HandshakeAction) {
        (
            self.at(HandshakePhase::Replying),
            s.agreed(version, capabilities, requested, ring),
            HandshakeAction::Reply { requested, agreed: capabilities & requested, fallback },
        )
    }

    /// The INIT reply is out, or lost without a ring that depends on it.
    pub open spec fn replied(self, s: Session) -> (Handshake, Session, HandshakeAction) {
        if s.ring {
            (self.at(HandshakePhase::Starting), s, HandshakeAction::StartRings)
        } else {
            (
                self.at(HandshakePhase::Ended),
                s,
                HandshakeAction::Return { reply: None, result: Ok(()) },
            )
        }
    }

    /// What is done about `event`.
    pub open spec fn spec_step(self, s: Session, event: HandshakeEvent) -> (
        Handshake,
        Session,
        HandshakeAction,
    ) {
        match (self.phase, event) {
            (HandshakePhase::Receiving, HandshakeEvent::Received(received)) => self.received(
                s,
                received,
            ),
            (
                HandshakePhase::Initializing { version, capabilities },
                HandshakeEvent::Initialized { requested },
            ) => {
                if !s.config.io_uring {
                    self.reply(s, version, capabilities, requested, s.ring, None)
                } else if offers_io_uring(capabilities) {
                    (
                        self.at(
                            HandshakePhase::CreatingRings { version, capabilities, requested },
                        ),
                        s,
                        HandshakeAction::CreateRings,
                    )
                } else {
                    self.reply(
                        s,
                        version,
                        capabilities,
                        requested,
                        s.ring,
                        Some(Fallback::NotAdvertised),
                    )
                }
            },
            (HandshakePhase::Initializing { .. }, HandshakeEvent::Refused(code)) => self.ended(
                s,
                Some(
                    Errno(
                        match code {
                            Some(code) if code != 0 => code,
                            _ => EIO,
                        },
                    ),
                ),
                HandshakeError::Filesystem,
            ),
            (HandshakePhase::Initializing { .. }, _) => self.ended(
                s,
                None,
                HandshakeError::Session(Error::NoFilesystem),
            ),
            (
                HandshakePhase::CreatingRings { version, capabilities, requested },
                HandshakeEvent::Rings(created),
            ) => {
                if created {
                    self.reply(
                        s,
                        version,
                        capabilities,
                        requested | FUSE_OVER_IO_URING,
                        true,
                        None,
                    )
                } else {
                    self.reply(
                        s,
                        version,
                        capabilities,
                        requested,
                        s.ring,
                        Some(Fallback::NoRings),
                    )
                }
            },
            (HandshakePhase::Replying, HandshakeEvent::Sent(Err(e))) => {
                // A reply that echoed the flag but never arrived leaves nothing to register
                // against; a session without a ring is only failed by its event loop
                if s.ring {
                    self.ended(s, None, HandshakeError::Session(e))
                } else {
                    self.replied(s)
                }
            },
            (HandshakePhase::Replying, _) => self.replied(s),
            (HandshakePhase::Starting, HandshakeEvent::Started(Err(e))) => self.ended(
                s,
                None,
                HandshakeError::Session(e),
            ),
            (HandshakePhase::Starting, _) => (
                self.at(HandshakePhase::Ended),
                s,
                HandshakeAction::Return { reply: None, result: Ok(()) },
            ),
            _ => (self, s, HandshakeAction::Receive),
        }
    }

    /// A handshake that waits for the kernel's INIT; its first action is to receive.
    pub fn new() -> (r: Handshake)
        ensures
            r == (Handshake { phase: HandshakePhase::Receiving }),
    {
        Handshake { phase: HandshakePhase::Receiving }
    }

    /// Whether `step` can take `event`.
    pub fn can_take(&self, event: &HandshakeEvent) -> (r: bool)
        ensures
            r == self.accepts(*event),
    {
        match self.phase {
            HandshakePhase::Receiving => matches!(event, HandshakeEvent::Received(_)),
            HandshakePhase::Initializing { .. } => matches!(
                event,
                HandshakeEvent::Initialized { .. } | HandshakeEvent::Refused(_)
                    | HandshakeEvent::NoFilesystem
            ),
            HandshakePhase::CreatingRings { .. } => matches!(event, HandshakeEvent::Rings(_)),
            HandshakePhase::Replying => matches!(event, HandshakeEvent::Sent(_)),
            HandshakePhase::Starting => matches!(event, HandshakeEvent::Started(_)),
            HandshakePhase::Ended => false,
        }
    }

    fn end(&mut self, reply: Option<Errno>, e: HandshakeError) -> (r: HandshakeAction)
        ensures
            *final(self) == old(self).at(HandshakePhase::Ended),
            r == (HandshakeAction::Return { reply, result: Err(e) }),
    {
        self.phase = HandshakePhase::Ended;
        HandshakeAction::Return { reply, result: Err(e) }
    }

    fn take_received(&mut self, session: &Session, received: Received) -> (r: HandshakeAction)
        ensures
            (*final(self), *session, r) == old(self).received(*session, received),
    {
        match received {
            Received::Failed(code) => {
                if session.numbers.is_disconnected(code) {
                    self.end(None, HandshakeError::Session(Error::Disconnected))
                } else {
                    self.end(None, HandshakeError::Session(Error::Os(code)))
                }
            },
            Received::Unparsable => self.end(None, HandshakeError::Session(Error::Unparsable)),
            Received::BadOperation => self.end(None, HandshakeError::Session(Error::BadOperation)),
            Received::NotInit => self.end(
                Some(Errno(EIO)),
                HandshakeError::Session(Error::NotInit),
            ),
            Received::Init { version, capabilities } => {
                if version.0 > FUSE_KERNEL_VERSION {
                    HandshakeAction::ReplyVersion
                } else if version.0 < 7 || (version.0 == 7 && version.1 < 6) {
                    self.end(
                        Some(Errno(session.numbers.eproto)),
                        HandshakeError::Session(
                            Error::UnsupportedAbi { major: version.0, minor: version.1 },
                        ),
                    )
                } else {
                    self.phase = HandshakePhase::Initializing { version, capabilities };
                    HandshakeAction::InitFilesystem
                }
            },
        }
    }

    fn agree(
        &mut self,
        session: &mut Session,
        version: Version,
        capabilities: u64,
        requested: u64,
        ring: bool,
        fallback: Option<Fallback>,
    ) -> (r: HandshakeAction)
        ensures
            (*final(self), *final(session), r) == old(self).reply(
                *old(session),
                version,
                capabilities,
                requested,
                ring,
                fallback,
            ),
    {
        session.proto_version = Some(version);
        session.negotiated = capabilities & requested;
        session.kernel_capabilities = capabilities;
        session.ring = ring;
        self.phase = HandshakePhase::Replying;
        HandshakeAction::Reply { requested, agreed: capabilities & requested, fallback }
    }

    fn after_reply(&mut self, session: &Session) -> (r: HandshakeAction)
        ensures
            (*final(self), *session, r) == old(self).replied(*session),
    {
        if session.ring {
            self.phase = HandshakePhase::Starting;
            HandshakeAction::StartRings
        } else {
            self.phase = HandshakePhase::Ended;
            HandshakeAction::Return { reply: None, result: Ok(()) }
        }
    }

    /// Takes what came of the last action and tells the next one.
    pub fn step(&mut self, session: &mut Session, event: HandshakeEvent) -> (r: HandshakeAction)
        requires
            old(self).accepts(event),
        ensures
            (*final(self), *final(session), r) == old(self).spec_step(*old(session), event),
    {
        match self.phase {
            HandshakePhase::Receiving => match event {
                HandshakeEvent::Received(received) => self.take_received(session, received),
                _ => HandshakeAction::Receive,
            },
            HandshakePhase::Initializing { version, capabilities } => match event {
                HandshakeEvent::Initialized { requested } => {
                    let ring: bool = session.ring;
                    if !session.config.io_uring {
                        self.agree(session, version, capabilities, requested, ring, None)
                    } else if capabilities & FUSE_OVER_IO_URING == FUSE_OVER_IO_URING {
                        self.phase = HandshakePhase::CreatingRings {
                            version,
                            capabilities,
                            requested,
                        };
                        HandshakeAction::CreateRings
                    } else {
                        self.agree(
                            session,
                            version,
                            capabilities,
                            requested,
                            ring,
                            Some(Fallback::NotAdvertised),
                        )
                    }
                },
                HandshakeEvent::Refused(code) => {
                    let code: i32 = match code {
                        Some(code) => code,
                        None => 0,
                    };
                    self.end(Some(Errno::from_i32(code)), HandshakeError::Filesystem)
                },
                _ => self.end(None, HandshakeError::Session(Error::NoFilesystem)),
            },
            HandshakePhase::CreatingRings { version, capabilities, requested } => {
                let ring: bool = session.ring;
                if matches!(event, HandshakeEvent::Rings(true)) {
                    self.agree(
                        session,
                        version,
                        capabilities,
                        requested | FUSE_OVER_IO_URING,
                        true,
                        None,
                    )
                } else {
                    self.agree(
                        session,
                        version,
                        capabilities,
                        requested,
                        ring,
                        Some(Fallback::NoRings),
                    )
                }
            },
            HandshakePhase::Replying => match event {
                HandshakeEvent::Sent(Err(err)) => {
                    if session.ring {
                        self.end(None, HandshakeError::Session(err))
                    } else {
                        self.after_reply(session)
                    }
                },
                _ => self.after_reply(session),
            },
            HandshakePhase::Starting => match event {
                HandshakeEvent::Started(Err(err)) => self.end(None, HandshakeError::Session(err)),
                _ => {
                    self.phase = HandshakePhase::Ended;
                    HandshakeAction::Return { reply: None, result: Ok(()) }
                },
            },
            HandshakePhase::Ended => HandshakeAction::Receive,
        }
    }
}

/// What a session has settled once INIT was answered.
pub open spec fn settled(s: Session) -> bool {
    &&& s.proto_version matches Some(v) && v.0 == FUSE_KERNEL_VERSION && v.1 >= 6
    // Nothing is agreed on that the kernel did not offer
    &&& s.negotiated & !s.kernel_capabilities == 0
    // A ring serves only where it was asked for, offered and agreed on
    &&& s.ring ==> s.config.io_uring && offers_io_uring(s.kernel_capabilities) && offers_io_uring(
        s.negotiated,
    )
}

/// What holds of a session at every point of its handshake.
pub open spec fn in_progress(h: Handshake, s: Session) -> bool {
    match h.phase {
        HandshakePhase::Receiving => !s.ring,
        HandshakePhase::Initializing { version, .. } => !s.ring && version.0 == FUSE_KERNEL_VERSION
            && version.1 >= 6,
        HandshakePhase::CreatingRings { version, capabilities, .. } => !s.ring && version.0
            == FUSE_KERNEL_VERSION && version.1 >= 6 && s.config.io_uring && offers_io_uring(
            capabilities,
        ),
        HandshakePhase::Replying => settled(s),
        HandshakePhase::Starting => settled(s) && s.ring,
        HandshakePhase::Ended => true,
    }
}

proof fn lemma_agreed_bits(capabilities: u64, requested: u64)
    ensures
        (capabilities & requested) & !capabilities == 0,
        offers_io_uring(capabilities) ==> offers_io_uring(
            capabilities & (requested | FUSE_OVER_IO_URING),
        ),
{
    assert((capabilities & requested) & !capabilities == 0) by (bit_vector);
    assert(capabilities & 0x200_0000_0000u64 == 0x200_0000_0000u64 ==> (capabilities & (requested
        | 0x200_0000_0000u64)) & 0x200_0000_0000u64 == 0x200_0000_0000u64) by (bit_vector);
}

/// Every step of a handshake keeps what holds of its session, and a handshake that succeeds
/// leaves it settled.
pub proof fn handshake_settles_the_session(h: Handshake, s: Session, event: HandshakeEvent)
    requires
        in_progress(h, s),
        h.accepts(event),
    ensures
        ({
            let (h2, s2, action) = h.spec_step(s, event);
            &&& in_progress(h2, s2)
            &&& action matches HandshakeAction::Return { result: Ok(_), .. } ==> settled(s2)
            &&& s2.config == s.config
            &&& s2.numbers == s.numbers
        }),
{
    match (h.phase, event) {
        (
            HandshakePhase::Initializing { capabilities, .. },
            HandshakeEvent::Initialized { requested },
        ) => {
            lemma_agreed_bits(capabilities, requested);
        },
        (HandshakePhase::CreatingRings { capabilities, requested, .. }, _) => {
            lemma_agreed_bits(capabilities, requested);
            lemma_agreed_bits(capabilities, requested | FUSE_OVER_IO_URING);
        },
        _ => {},
    }
}

/// A kernel that speaks a newer protocol is told the supported version and asked again; nothing
/// else changes.
pub proof fn newer_kernel_is_asked_again(h: Handshake, s: Session, version: Version, caps: u64)
    requires
        h.phase is Receiving,
        version.0 > FUSE_KERNEL_VERSION,
    ensures
        h.spec_step(
            s,
            HandshakeEvent::Received(Received::Init { version, capabilities: caps }),
        ) == (h, s, HandshakeAction::ReplyVersion),
{
}

/// An INIT reply that cannot be written ends the handshake of a ring session with that error, and
/// no other.
pub proof fn unwritable_reply_fails_only_a_ring_session(h: Handshake, s: Session, e: Error)
    requires
        h.phase is Replying,
    ensures
        h.spec_step(s, HandshakeEvent::Sent(Err(e))).2 == (HandshakeAction::Return {
            reply: None,
            result: if s.ring {
                Err(HandshakeError::Session(e))
            } else {
                Ok(())
            },
        }),
{
}

/// How the kernel and the session stand to one capability.
#[derive(Debug, Clone, Copy, PartialEq, Eq, Structural)]
pub enum CapabilityStatus {
    /// Requested and supported.
    Enabled,
    /// Requested, but the kernel does not support it.
    NotSupported,
    /// Supported, but not requested.
    NotRequested,
    /// Neither, though it is a known capability.
    Neither,
}

/// Whether bit `bit` of `flags` is set.
pub open spec fn has_bit(flags: u64, bit: u32) -> bool {
    (flags >> bit) & 1 == 1
}

fn test_bit(flags: u64, bit: u32) -> (r: bool)
    requires
        bit < 64,
    ensures
        r == has_bit(flags, bit),
{
    (flags >> bit) & 1 == 1
}

/// The status of capability bit `bit`.
pub open spec fn status_of(capabilities: u64, requested: u64, known: u64, bit: u32) -> Option<
    CapabilityStatus,
> {
    if bit == FUSE_INIT_EXT_BIT {
        None
    } else if has_bit(requested, bit) && has_bit(capabilities, bit) {
        Some(CapabilityStatus::Enabled)
    } else if has_bit(requested, bit) {
        Some(CapabilityStatus::NotSupported)
    } else if has_bit(capabilities, bit) {
        Some(CapabilityStatus::NotRequested)
    } else if has_bit(known, bit) {
        Some(CapabilityStatus::Neither)
    } else {
        None
    }
}

/// The status of capability bit `bit`, for the log; `None` for a bit that means nothing here: the
/// one that announces more flags, and one that nobody knows.
pub fn capability_status(capabilities: u64, requested: u64, known: u64, bit: u32) -> (r: Option<
    CapabilityStatus,
>)
    requires
        bit < 64,
    ensures
        r == status_of(capabilities, requested, known, bit),
{
    if bit == FUSE_INIT_EXT_BIT {
        return None;
    }
    if test_bit(requested, bit) {
        if test_bit(capabilities, bit) {
            Some(CapabilityStatus::Enabled)
        } else {
            Some(CapabilityStatus::NotSupported)
        }
    } else if test_bit(capabilities, bit) {
        Some(CapabilityStatus::NotRequested)
    } else if test_bit(known, bit) {
        Some(CapabilityStatus::Neither)
    } else {
        None
    }
}

/// Whether exactly those capabilities are agreed on that the kernel offers and the session
/// requests, bit by bit.
pub open spec fn agreed_bit_by_bit(offered: u64, requested: u64, agreed: u64) -> bool {
    forall|bit: u64|
        bit < 64 ==> (#[trigger] (agreed >> bit) & 1 == 1 <==> (offered >> bit) & 1 == 1 && (
        requested >> bit) & 1 == 1)
}

proof fn lemma_agreed_bit_by_bit(offered: u64, requested: u64)
    ensures
        agreed_bit_by_bit(offered, requested, offered & requested),
{
    assert forall|bit: u64| bit < 64 implies (#[trigger] ((offered & requested) >> bit) & 1 == 1
        <==> (offered >> bit) & 1 == 1 && (requested >> bit) & 1 == 1) by {
        assert(((offered & requested) >> bit) & 1 == 1 <==> (offered >> bit) & 1 == 1 && (requested
            >> bit) & 1 == 1) by (bit_vector)
            requires
                bit < 64,
        ;
    }
}

/// Whether `s` is `before` with what INIT told and what was agreed on, and nothing else changed.
pub open spec fn learned(before: Session, s: Session, version: Version, offered: u64, agreed: u64)
    -> bool {
    &&& s.proto_version == Some(version)
    &&& s.kernel_capabilities == offered
    &&& s.negotiated == agreed
    &&& keeps_its_options(before, s)
}

/// Whether what a session was made with is unchanged.
pub open spec fn keeps_its_options(before: Session, s: Session) -> bool {
    &&& s.allowed == before.allowed
    &&& s.session_owner == before.session_owner
    &&& s.config == before.config
    &&& s.numbers == before.numbers
    &&& s.mounted == before.mounted
}

/// A session that did not ask for io_uring agrees with the kernel on every capability that the
/// kernel offers and the filesystem requests, and on no other, whichever they are; and it opens
/// once the reply was sent.
pub proof fn session_agrees_on_what_both_have(
    h: Handshake,
    s: Session,
    version: Version,
    offered: u64,
    requested: u64,
    sent: Result<(), Error>,
)
    requires
        h.phase is Receiving,
        version.0 == 7 && version.1 >= 6,
        !s.ring,
        !s.config.io_uring,
    ensures
        ({
            let init = Received::Init { version, capabilities: offered };
            let (h1, s1, first) = h.spec_step(s, HandshakeEvent::Received(init));
            let (h2, s2, second) = h1.spec_step(s1, HandshakeEvent::Initialized { requested });
            let (h3, s3, third) = h2.spec_step(s2, HandshakeEvent::Sent(sent));
            &&& first == HandshakeAction::InitFilesystem && s1 == s
            &&& second matches HandshakeAction::Reply { requested: named, agreed, fallback } && {
                &&& named == requested
                &&& agreed_bit_by_bit(offered, requested, agreed)
                &&& fallback is None
                &&& learned(s, s2, version, offered, agreed)
                &&& !s2.ring
            }
            &&& third == (HandshakeAction::Return { reply: None, result: Ok(()) })
            &&& s3 == s2
            &&& h3.phase is Ended
        }),
{
    lemma_agreed_bit_by_bit(offered, requested);
}

/// A session that asked for io_uring gets its rings where the kernel offers them and they can be
/// made; then the flag counts as requested. It opens once the reply was sent and the rings
/// registered, and fails with the error of either.
pub proof fn session_gets_its_rings(
    h: Handshake,
    s: Session,
    version: Version,
    offered: u64,
    requested: u64,
    started: Result<(), Error>,
    e: Error,
)
    requires
        h.phase is Receiving,
        version.0 == 7 && version.1 >= 6,
        !s.ring,
        s.config.io_uring,
        (offered >> 41u64) & 1 == 1,
    ensures
        ({
            let init = Received::Init { version, capabilities: offered };
            let (h1, s1, first) = h.spec_step(s, HandshakeEvent::Received(init));
            let (h2, s2, second) = h1.spec_step(s1, HandshakeEvent::Initialized { requested });
            let (h3, s3, third) = h2.spec_step(s2, HandshakeEvent::Rings(true));
            let (h4, s4, fourth) = h3.spec_step(s3, HandshakeEvent::Sent(Ok(())));
            let (h5, s5, fifth) = h4.spec_step(s4, HandshakeEvent::Started(started));
            &&& first == HandshakeAction::InitFilesystem && s1 == s
            &&& second == HandshakeAction::CreateRings && s2 == s
            &&& third matches HandshakeAction::Reply { requested: named, agreed, fallback } && {
                &&& agreed_bit_by_bit(offered, named, agreed)
                &&& (named >> 41u64) & 1 == 1
                &&& (agreed >> 41u64) & 1 == 1
                &&& forall|bit: u64|
                    bit < 64 && bit != 41 ==> (#[trigger] (named >> bit) & 1 == 1 <==> (requested
                        >> bit) & 1 == 1)
                &&& fallback is None
                &&& learned(s, s3, version, offered, agreed)
                &&& s3.ring
            }
            &&& fourth == HandshakeAction::StartRings && s4 == s3
            &&& fifth == (HandshakeAction::Return {
                reply: None,
                result: match started {
                    Ok(()) => Ok(()),
                    Err(error) => Err(HandshakeError::Session(error)),
                },
            })
            &&& s5 == s3
            &&& h3.spec_step(s3, HandshakeEvent::Sent(Err(e))).2 == (HandshakeAction::Return {
                reply: None,
                result: Err(HandshakeError::Session(e)),
            })
            &&& h3.spec_step(s3, HandshakeEvent::Sent(Err(e))).1 == s3
        }),
{
    let named = requested | FUSE_OVER_IO_URING;
    lemma_agreed_bit_by_bit(offered, named);
    assert(offered & 0x200_0000_0000u64 == 0x200_0000_0000u64) by (bit_vector)
        requires
            (offered >> 41u64) & 1 == 1,
    ;
    assert(((requested | 0x200_0000_0000u64) >> 41u64) & 1 == 1) by (bit_vector);
    assert(((offered & named) >> 41u64) & 1 == 1);
    assert forall|bit: u64| bit < 64 && bit != 41 implies (#[trigger] (named >> bit) & 1 == 1 <==> (
    requested >> bit) & 1 == 1) by {
        assert(((requested | 0x200_0000_0000u64) >> bit) & 1 == 1 <==> (requested >> bit) & 1 == 1)
            by (bit_vector)
            requires
                bit < 64 && bit != 41,
        ;
    }
}

/// A session that asked for io_uring falls back to `/dev/fuse` where the kernel does not offer it
/// or the rings cannot be made, agrees on what both have, and says why.
pub proof fn session_falls_back(
    h: Handshake,
    s: Session,
    version: Version,
    offered: u64,
    requested: u64,
)
    requires
        h.phase == (HandshakePhase::Initializing { version, capabilities: offered }),
        !s.ring,
        s.config.io_uring,
    ensures
        (offered >> 41u64) & 1 == 0 ==> {
            let (h2, s2, action) = h.spec_step(s, HandshakeEvent::Initialized { requested });
            action matches HandshakeAction::Reply { requested: named, agreed, fallback } && {
                &&& named == requested
                &&& agreed_bit_by_bit(offered, requested, agreed)
                &&& fallback == Some(Fallback::NotAdvertised)
                &&& learned(s, s2, version, offered, agreed)
                &&& !s2.ring
            }
        },
        (offered >> 41u64) & 1 == 1 ==> {
            let (h2, s2, action) = h.spec_step(s, HandshakeEvent::Initialized { requested });
            let (h3, s3, reply) = h2.spec_step(s2, HandshakeEvent::Rings(false));
            &&& action == HandshakeAction::CreateRings
            &&& reply matches HandshakeAction::Reply { requested: named, agreed, fallback } && {
                &&& named == requested
                &&& agreed_bit_by_bit(offered, requested, agreed)
                &&& fallback == Some(Fallback::NoRings)
                &&& learned(s, s3, version, offered, agreed)
                &&& !s3.ring
            }
        },
{
    lemma_agreed_bit_by_bit(offered, requested);
    assert((offered >> 41u64) & 1 == 0 <==> offered & 0x200_0000_0000u64 != 0x200_0000_0000u64)
        by (bit_vector);
    assert((offered >> 41u64) & 1 == 1 <==> offered & 0x200_0000_0000u64 == 0x200_0000_0000u64)
        by (bit_vector);
}

/// The first request decides whether there is a session: INIT of protocol 7.6 or later is taken, an
/// older protocol is refused with `EPROTO` and its version named, and whatever is not INIT ends the
/// handshake with an error that says what came instead.
pub proof fn first_request_decides(
    h: Handshake,
    s: Session,
    version: Version,
    capabilities: u64,
    code: i32,
)
    requires
        h.phase is Receiving,
    ensures
        ({
            let (h2, s2, action) = h.spec_step(
                s,
                HandshakeEvent::Received(Received::Init { version, capabilities }),
            );
            &&& s2 == s
            &&& version.0 == 7 && version.1 >= 6 ==> action == HandshakeAction::InitFilesystem
                && h2.phase == (HandshakePhase::Initializing { version, capabilities })
            &&& version.0 < 7 || (version.0 == 7 && version.1 < 6) ==> action == (
            HandshakeAction::Return {
                reply: Some(Errno(s.numbers.eproto)),
                result: Err(
                    HandshakeError::Session(
                        Error::UnsupportedAbi { major: version.0, minor: version.1 },
                    ),
                ),
            }) && h2.phase is Ended
            &&& version.0 > 7 ==> action == HandshakeAction::ReplyVersion && h2 == h
        }),
        ({
            let (h2, s2, action) = h.spec_step(s, HandshakeEvent::Received(Received::Failed(code)));
            &&& s2 == s && h2.phase is Ended
            &&& action == (HandshakeAction::Return {
                reply: None,
                result: Err(
                    HandshakeError::Session(
                        if code == 19 || code == s.numbers.econnaborted {
                            Error::Disconnected
                        } else {
                            Error::Os(code)
                        },
                    ),
                ),
            })
        }),
        h.spec_step(s, HandshakeEvent::Received(Received::Unparsable)) == (
            Handshake { phase: HandshakePhase::Ended },
            s,
            HandshakeAction::Return {
                reply: None,
                result: Err(HandshakeError::Session(Error::Unparsable)),
            },
        ),
        h.spec_step(s, HandshakeEvent::Received(Received::BadOperation)) == (
            Handshake { phase: HandshakePhase::Ended },
            s,
            HandshakeAction::Return {
                reply: None,
                result: Err(HandshakeError::Session(Error::BadOperation)),
            },
        ),
        h.spec_step(s, HandshakeEvent::Received(Received::NotInit)) == (
            Handshake { phase: HandshakePhase::Ended },
            s,
            HandshakeAction::Return {
                reply: Some(Errno(5)),
                result: Err(HandshakeError::Session(Error::NotInit)),
            },
        ),
{
}

/// A filesystem that refuses ends the handshake with its own error, and the kernel is told its
/// number, `EIO` where it has none.
pub proof fn refusal_is_the_filesystems(h: Handshake, s: Session, code: i32)
    requires
        h.phase is Initializing,
    ensures
        code != 0 ==> h.spec_step(s, HandshakeEvent::Refused(Some(code))).2 == (
        HandshakeAction::Return {
            reply: Some(Errno(code)),
            result: Err(HandshakeError::Filesystem),
        }),
        h.spec_step(s, HandshakeEvent::Refused(Some(0))).2 == (HandshakeAction::Return {
            reply: Some(Errno(5)),
            result: Err(HandshakeError::Filesystem),
        }),
        h.spec_step(s, HandshakeEvent::Refused(None)).2 == (HandshakeAction::Return {
            reply: Some(Errno(5)),
            result: Err(HandshakeError::Filesystem),
        }),
        h.spec_step(s, HandshakeEvent::NoFilesystem).2 == (HandshakeAction::Return {
            reply: None,
            result: Err(HandshakeError::Session(Error::NoFilesystem)),
        }),
        h.spec_step(s, HandshakeEvent::Refused(Some(code))).1 == s,
        h.spec_step(s, HandshakeEvent::Refused(None)).1 == s,
        h.spec_step(s, HandshakeEvent::NoFilesystem).1 == s,
{
}

/// A handshake can always be told what came of what it asked for, keeps what its session was made
/// with, and is over when it returns.
pub proof fn handshake_takes_every_answer(
    h: Handshake,
    s: Session,
    event: HandshakeEvent,
    received: Received,
    requested: u64,
    code: Option<i32>,
    made: bool,
    outcome: Result<(), Error>,
)
    requires
        h.accepts(event),
    ensures
        ({
            let (h2, s2, action) = h.spec_step(s, event);
            &&& keeps_its_options(s, s2)
            &&& match action {
                HandshakeAction::Receive | HandshakeAction::ReplyVersion => h2.accepts(
                    HandshakeEvent::Received(received),
                ),
                HandshakeAction::InitFilesystem => h2.accepts(
                    HandshakeEvent::Initialized { requested },
                ) && h2.accepts(HandshakeEvent::Refused(code)) && h2.accepts(
                    HandshakeEvent::NoFilesystem,
                ),
                HandshakeAction::CreateRings => h2.accepts(HandshakeEvent::Rings(made)),
                HandshakeAction::Reply { .. } => h2.accepts(HandshakeEvent::Sent(outcome)),
                HandshakeAction::StartRings => h2.accepts(HandshakeEvent::Started(outcome)),
                HandshakeAction::Return { .. } => h2.phase is Ended,
            }
        }),
        (Handshake { phase: HandshakePhase::Receiving }).accepts(HandshakeEvent::Received(received)),
{
}

/// A capability is enabled where the kernel and the session have it, and its status tells otherwise
/// which of them lacks it; what nobody has is only told where it is known.
pub proof fn status_tells_who_has_the_capability(
    capabilities: u64,
    requested: u64,
    known: u64,
    bit: u32,
)
    requires
        bit < 64,
    ensures
        ({
            let offered = (capabilities >> (bit as u64)) & 1 == 1;
            let wanted = (requested >> (bit as u64)) & 1 == 1;
            let status = status_of(capabilities, requested, known, bit);
            &&& bit == 30 ==> status is None
            &&& bit != 30 ==> {
                &&& status == Some(CapabilityStatus::Enabled) <==> offered && wanted
                &&& status == Some(CapabilityStatus::NotSupported) <==> wanted && !offered
                &&& status == Some(CapabilityStatus::NotRequested) <==> offered && !wanted
                &&& status == Some(CapabilityStatus::Neither) <==> !offered && !wanted && (known >> (
                bit as u64)) & 1 == 1
            }
        }),
{
}

} // verus!

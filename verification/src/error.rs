//! What can go wrong, and the text that callers see.
use vstd::prelude::*;

verus! {

/// Why a request was refused or a step failed.
#[derive(Debug, PartialEq, Eq)]
pub enum Error {
    /// A name that the kernel would not accept for an interface.
    InvalidName,
    /// The group-start event named something else than a P2P data interface.
    NotP2pInterface,
    /// The data interface belongs to another radio.
    WrongRadio,
    /// The data interface is no longer the one that was validated.
    ReplacedBeforeSetup,
    /// Somebody else put the interface into a device group.
    ForeignDeviceGroup,
    /// The tag did not land on the validated interface.
    ChangedWhileTagging,
    /// The tagged interface disappeared before an update.
    InterfaceGone,
    /// The source would listen on a privileged port.
    PrivilegedRtspPort,
    /// RTCP was asked for without addresses or usable ports.
    RtcpUnvalidated,
    /// The chain is not reached from the firewall's input rules.
    HookMissing,
    /// A started command offered no standard input.
    MissingStdin,
    /// A command did not finish in time.
    CommandTimedOut,
    /// A numeral without characters.
    EmptyNumber,
    /// A numeral with something else than digits.
    InvalidDigit,
    /// A numeral beyond the range of its type.
    NumberTooLarge,
    /// Text that is no dotted-decimal IPv4 address.
    AddressSyntax,
    /// Somebody else's session.
    NotOwner,
    /// The system policy said no.
    AuthorizationDenied,
    /// Text that is no peer hardware address.
    InvalidPeer,
    /// Another request holds the session.
    SetupBusy,
    /// There is a session already.
    SessionActive,
    /// The display advertises a privileged control port.
    PrivilegedSinkPort,
    /// The group was not set up in time.
    SetupTimedOut,
    /// The caller left the bus during setup.
    CallerLost,
    /// A connection came up without a prepared interface.
    MissingPrepared,
    /// A connection came up without a local address.
    MissingLocal,
    /// A connection came up without the group owner's address.
    MissingOwnerAddress,
    /// There is no session to act on.
    NoSession,
    /// A socket of another address family.
    NotIpv4,
    /// The passed sockets are not of the expected types.
    WrongSocketTypes,
    /// The session has no local address yet.
    NoGroupAddress,
    /// The session does not know the group owner.
    MissingGroupOwner,
    /// A socket is bound outside the session's address.
    ForeignLocalAddress,
    /// The control connection uses neither agreed port.
    WrongControlPort,
    /// The control peer cannot be another host of the group.
    InvalidPeerAddress,
    /// The control peer is not in the group's network.
    PeerOutsideGroup,
    /// The control peer is not the group owner.
    PeerNotGroupOwner,
    /// The media ports are not a reserved even / odd pair.
    WrongMediaPorts,
    /// The owner of the session let go of it.
    SessionEnded,
    /// The helper did not answer in time.
    BeginTimedOut,
    /// The program was started with an unknown argument.
    Usage,
    /// A command could not be started.
    CommandStart { binary: String },
    /// A command reported failure.
    CommandFailed { binary: String, stderr: String },
    /// The helper refused to begin a session.
    BeginFailed { cause: String },
    /// A failure reported from outside, in its own words.
    Outside { text: String },
}

impl Error {
    /// The text that is shown for this error.
    pub open spec fn text(self) -> Seq<char> {
        match self {
            Error::InvalidName => "Invalid network interface name"@,
            Error::NotP2pInterface => "Not a P2P data interface"@,
            Error::WrongRadio => "P2P interface is not on the selected radio"@,
            Error::ReplacedBeforeSetup => "P2P interface was replaced before setup"@,
            Error::ForeignDeviceGroup => "P2P interface already has a custom device group"@,
            Error::ChangedWhileTagging => "P2P interface changed while tagging it"@,
            Error::InterfaceGone => "P2P interface disappeared or was replaced"@,
            Error::PrivilegedRtspPort => "Refusing a privileged RTSP port"@,
            Error::RtcpUnvalidated => "RTCP requires validated local/peer addresses and ports"@,
            Error::HookMissing => "Waycast UFW hook is not loaded; run the installed networking setup"@,
            Error::MissingStdin => "Missing command stdin"@,
            Error::CommandTimedOut => "Firewall command timed out"@,
            Error::EmptyNumber => "cannot parse integer from empty string"@,
            Error::InvalidDigit => "invalid digit found in string"@,
            Error::NumberTooLarge => "number too large to fit in target type"@,
            Error::AddressSyntax => "invalid IPv4 address syntax"@,
            Error::NotOwner => "The caller does not own this network session"@,
            Error::AuthorizationDenied => "Wireless display network authorization was denied"@,
            Error::InvalidPeer => "Invalid discovered peer address"@,
            Error::SetupBusy => "Wireless display network setup is busy"@,
            Error::SessionActive => "A wireless display session is already active"@,
            Error::PrivilegedSinkPort => "TV advertises an unsupported privileged RTSP port"@,
            Error::SetupTimedOut => "P2P setup timed out"@,
            Error::CallerLost => "Caller disconnected during P2P setup"@,
            Error::MissingPrepared => "Missing prepared interface"@,
            Error::MissingLocal => "Missing local IPv4"@,
            Error::MissingOwnerAddress => "Missing group owner IPv4"@,
            Error::NoSession => "No active network session"@,
            Error::NotIpv4 => "Only IPv4 sockets are supported"@,
            Error::WrongSocketTypes => "Expected a TCP control socket and two UDP media sockets"@,
            Error::NoGroupAddress => "No local group address"@,
            Error::MissingGroupOwner => "Missing group owner"@,
            Error::ForeignLocalAddress => "Sockets must bind the session's local P2P address"@,
            Error::WrongControlPort => "Control socket does not use the negotiated RTSP port"@,
            Error::InvalidPeerAddress => "Invalid control peer"@,
            Error::PeerOutsideGroup => "Control peer is outside the P2P group"@,
            Error::PeerNotGroupOwner => "Control peer is not the selected group owner"@,
            Error::WrongMediaPorts => "Expected reserved consecutive even RTP / odd RTCP ports"@,
            Error::SessionEnded => "Network session ended"@,
            Error::BeginTimedOut => "Timed out preparing the wireless display network"@,
            Error::Usage => "Usage: waycast-networkd [--cleanup]"@,
            Error::CommandStart { binary } => "Starting "@ + binary@,
            Error::CommandFailed { binary, stderr } => binary@ + ": "@ + stderr@,
            Error::BeginFailed { cause } => "Wireless display network setup failed: "@ + cause@
                + ". Install/enable waycast-networkd using the Waycast installer."@,
            Error::Outside { text } => text@,
        }
    }

    /// The text that is shown for this error.
    pub fn message(&self) -> (message: String)
        ensures
            message@ == self.text(),
    {
        match self {
            Error::InvalidName => "Invalid network interface name".to_owned(),
            Error::NotP2pInterface => "Not a P2P data interface".to_owned(),
            Error::WrongRadio => "P2P interface is not on the selected radio".to_owned(),
            Error::ReplacedBeforeSetup => "P2P interface was replaced before setup".to_owned(),
            Error::ForeignDeviceGroup => "P2P interface already has a custom device group".to_owned(),
            Error::ChangedWhileTagging => "P2P interface changed while tagging it".to_owned(),
            Error::InterfaceGone => "P2P interface disappeared or was replaced".to_owned(),
            Error::PrivilegedRtspPort => "Refusing a privileged RTSP port".to_owned(),
            Error::RtcpUnvalidated => "RTCP requires validated local/peer addresses and ports".to_owned(),
            Error::HookMissing => "Waycast UFW hook is not loaded; run the installed networking setup".to_owned(),
            Error::MissingStdin => "Missing command stdin".to_owned(),
            Error::CommandTimedOut => "Firewall command timed out".to_owned(),
            Error::EmptyNumber => "cannot parse integer from empty string".to_owned(),
            Error::InvalidDigit => "invalid digit found in string".to_owned(),
            Error::NumberTooLarge => "number too large to fit in target type".to_owned(),
            Error::AddressSyntax => "invalid IPv4 address syntax".to_owned(),
            Error::NotOwner => "The caller does not own this network session".to_owned(),
            Error::AuthorizationDenied => "Wireless display network authorization was denied".to_owned(),
            Error::InvalidPeer => "Invalid discovered peer address".to_owned(),
            Error::SetupBusy => "Wireless display network setup is busy".to_owned(),
            Error::SessionActive => "A wireless display session is already active".to_owned(),
            Error::PrivilegedSinkPort => "TV advertises an unsupported privileged RTSP port".to_owned(),
            Error::SetupTimedOut => "P2P setup timed out".to_owned(),
            Error::CallerLost => "Caller disconnected during P2P setup".to_owned(),
            Error::MissingPrepared => "Missing prepared interface".to_owned(),
            Error::MissingLocal => "Missing local IPv4".to_owned(),
            Error::MissingOwnerAddress => "Missing group owner IPv4".to_owned(),
            Error::NoSession => "No active network session".to_owned(),
            Error::NotIpv4 => "Only IPv4 sockets are supported".to_owned(),
            Error::WrongSocketTypes => "Expected a TCP control socket and two UDP media sockets".to_owned(),
            Error::NoGroupAddress => "No local group address".to_owned(),
            Error::MissingGroupOwner => "Missing group owner".to_owned(),
            Error::ForeignLocalAddress => "Sockets must bind the session's local P2P address".to_owned(),
            Error::WrongControlPort => "Control socket does not use the negotiated RTSP port".to_owned(),
            Error::InvalidPeerAddress => "Invalid control peer".to_owned(),
            Error::PeerOutsideGroup => "Control peer is outside the P2P group".to_owned(),
            Error::PeerNotGroupOwner => "Control peer is not the selected group owner".to_owned(),
            Error::WrongMediaPorts => "Expected reserved consecutive even RTP / odd RTCP ports".to_owned(),
            Error::SessionEnded => "Network session ended".to_owned(),
            Error::BeginTimedOut => "Timed out preparing the wireless display network".to_owned(),
            Error::Usage => "Usage: waycast-networkd [--cleanup]".to_owned(),
            Error::CommandStart { binary } => "Starting ".to_owned().concat(binary.as_str()),
            Error::CommandFailed { binary, stderr } => binary.clone().concat(": ").concat(
                stderr.as_str(),
            ),
            Error::BeginFailed { cause } => "Wireless display network setup failed: ".to_owned().concat(
                cause.as_str(),
            ).concat(". Install/enable waycast-networkd using the Waycast installer."),
            Error::Outside { text } => text.clone(),
        }
    }
}

} // verus!

//! What callers and administrators get to see of the helper, and how long anybody waits.
use crate::client::{ALIVE_SECONDS, BEGIN_SECONDS, END_SECONDS, MEDIA_SECONDS};
use crate::command::{COMMAND_LOCALE, COMMAND_PATH, COMMAND_SECONDS};
use crate::error::Error;
use crate::service::{
    OWNER_POLL_MILLIS, OWNER_SECONDS, POLICY_ACTION, POLICY_FLAGS, POLICY_INTERFACE, POLICY_PATH,
    POLICY_SECONDS, POLICY_SERVICE, POLICY_SUBJECT, SUPERVISE_MILLIS,
};
use crate::setup::{CLOSE_SECONDS, GROUP_NAME, SETUP_SECONDS};
use crate::{BUS_NAME, OBJECT_PATH};
use vstd::prelude::*;

verus! {

/// A failure that was reported from outside is passed on in its own words, whatever
/// they are; what wraps it names the command or the step, and loses none of them.
pub proof fn law_messages_quote_what_was_said(binary: String, said: String)
    ensures
        (Error::Outside { text: said }).text() == said@,
        (Error::CommandStart { binary }).text() == "Starting "@ + binary@,
        (Error::CommandFailed { binary, stderr: said }).text() == binary@ + ": "@ + said@,
        "Wireless display network setup failed: "@.is_prefix_of((Error::BeginFailed { cause: said }).text()),
        ({
            let text = (Error::BeginFailed { cause: said }).text();
            let lead = "Wireless display network setup failed: "@.len() as int;
            let advice = ". Install/enable waycast-networkd using the Waycast installer."@;
            &&& text.len() == lead + said@.len() + advice.len()
            &&& text.subrange(lead, lead + said@.len()) == said@
            &&& text.skip(lead + said@.len()) == advice
        }),
{
    let lead = "Wireless display network setup failed: "@;
    let advice = ". Install/enable waycast-networkd using the Waycast installer."@;
    let text = (Error::BeginFailed { cause: said }).text();
    let from = lead.len() as int;
    assert(text.subrange(0, from) =~= lead);
    assert(text.subrange(from, from + said@.len()) =~= said@);
    assert(text.skip(from + said@.len()) =~= advice);
}

/// How callers are told what is wrong with an interface or its rules.
pub proof fn law_messages_about_interfaces()
    ensures
        Error::InvalidName.text() == "Invalid network interface name"@,
        Error::NotP2pInterface.text() == "Not a P2P data interface"@,
        Error::WrongRadio.text() == "P2P interface is not on the selected radio"@,
        Error::ReplacedBeforeSetup.text() == "P2P interface was replaced before setup"@,
        Error::ForeignDeviceGroup.text() == "P2P interface already has a custom device group"@,
        Error::ChangedWhileTagging.text() == "P2P interface changed while tagging it"@,
        Error::InterfaceGone.text() == "P2P interface disappeared or was replaced"@,
        Error::PrivilegedRtspPort.text() == "Refusing a privileged RTSP port"@,
        Error::RtcpUnvalidated.text() == "RTCP requires validated local/peer addresses and ports"@,
        Error::HookMissing.text() == "Waycast UFW hook is not loaded; run the installed networking setup"@,
        Error::MissingStdin.text() == "Missing command stdin"@,
        Error::CommandTimedOut.text() == "Firewall command timed out"@,
{
}

/// How callers are told what is wrong with a text.
pub proof fn law_messages_about_text()
    ensures
        Error::EmptyNumber.text() == "cannot parse integer from empty string"@,
        Error::InvalidDigit.text() == "invalid digit found in string"@,
        Error::NumberTooLarge.text() == "number too large to fit in target type"@,
        Error::AddressSyntax.text() == "invalid IPv4 address syntax"@,
{
}

/// How callers are told why a request was refused or failed.
pub proof fn law_messages_about_requests()
    ensures
        Error::NotOwner.text() == "The caller does not own this network session"@,
        Error::AuthorizationDenied.text() == "Wireless display network authorization was denied"@,
        Error::InvalidPeer.text() == "Invalid discovered peer address"@,
        Error::SetupBusy.text() == "Wireless display network setup is busy"@,
        Error::SessionActive.text() == "A wireless display session is already active"@,
        Error::PrivilegedSinkPort.text() == "TV advertises an unsupported privileged RTSP port"@,
        Error::SetupTimedOut.text() == "P2P setup timed out"@,
        Error::CallerLost.text() == "Caller disconnected during P2P setup"@,
        Error::MissingPrepared.text() == "Missing prepared interface"@,
        Error::MissingLocal.text() == "Missing local IPv4"@,
        Error::MissingOwnerAddress.text() == "Missing group owner IPv4"@,
        Error::NoSession.text() == "No active network session"@,
{
}

/// How callers are told what is wrong with a media request's sockets.
pub proof fn law_messages_about_media()
    ensures
        Error::NotIpv4.text() == "Only IPv4 sockets are supported"@,
        Error::WrongSocketTypes.text() == "Expected a TCP control socket and two UDP media sockets"@,
        Error::NoGroupAddress.text() == "No local group address"@,
        Error::MissingGroupOwner.text() == "Missing group owner"@,
        Error::ForeignLocalAddress.text() == "Sockets must bind the session's local P2P address"@,
        Error::WrongControlPort.text() == "Control socket does not use the negotiated RTSP port"@,
        Error::InvalidPeerAddress.text() == "Invalid control peer"@,
        Error::PeerOutsideGroup.text() == "Control peer is outside the P2P group"@,
        Error::PeerNotGroupOwner.text() == "Control peer is not the selected group owner"@,
        Error::WrongMediaPorts.text() == "Expected reserved consecutive even RTP / odd RTCP ports"@,
{
}

/// How a client or the program's user is told that it ended.
pub proof fn law_messages_about_the_program()
    ensures
        Error::SessionEnded.text() == "Network session ended"@,
        Error::BeginTimedOut.text() == "Timed out preparing the wireless display network"@,
        Error::Usage.text() == "Usage: waycast-networkd [--cleanup]"@,
{
}

/// Nobody gives up on work that is still in time: a client waits longer than the
/// policy, the setup of the group and its closing may take together, longer for an
/// end than the closing and a command may take, and longer for media than a command
/// may take; a caller that leaves is noticed within the time that the setup may take.
pub proof fn law_time_limits()
    ensures
        BEGIN_SECONDS == 120,
        MEDIA_SECONDS == 10,
        END_SECONDS == 15,
        ALIVE_SECONDS == 3,
        COMMAND_SECONDS == 8,
        POLICY_SECONDS == 30,
        SETUP_SECONDS == 60,
        CLOSE_SECONDS == 5,
        OWNER_SECONDS == 2,
        OWNER_POLL_MILLIS == 250,
        SUPERVISE_MILLIS == 500,
        POLICY_SECONDS + SETUP_SECONDS + CLOSE_SECONDS < BEGIN_SECONDS,
        CLOSE_SECONDS + COMMAND_SECONDS < END_SECONDS,
        COMMAND_SECONDS < MEDIA_SECONDS,
        OWNER_POLL_MILLIS < 1000 * SETUP_SECONDS,
{
}

/// The names by which the helper is found, the policy is asked, and the connection
/// is known, and the environment of the commands.
pub proof fn law_names()
    ensures
        BUS_NAME@ == "org.waycast.Network1"@,
        OBJECT_PATH@ == "/org/waycast/Network1"@,
        POLICY_SERVICE@ == "org.freedesktop.PolicyKit1"@,
        POLICY_PATH@ == "/org/freedesktop/PolicyKit1/Authority"@,
        POLICY_INTERFACE@ == POLICY_SERVICE@ + ".Authority"@,
        POLICY_SUBJECT@ == "system-bus-name"@,
        POLICY_ACTION@ == "org.waycast.network.configure"@,
        POLICY_FLAGS == 1,
        GROUP_NAME@ == "waycast-managed"@,
        COMMAND_PATH@ == "/usr/bin:/usr/sbin"@,
        COMMAND_LOCALE@ == "C"@,
{
    reveal_strlit("org.freedesktop.PolicyKit1");
    reveal_strlit(".Authority");
    reveal_strlit("org.freedesktop.PolicyKit1.Authority");
    assert(POLICY_INTERFACE@ =~= POLICY_SERVICE@ + ".Authority"@);
}

} // verus!

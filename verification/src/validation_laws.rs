//! What is accepted and what is refused, by the facts that decide it.
use crate::address::{law_notation_is_unique, lemma_decimal_value, ipv4_verdict, parsed, Ipv4Addr, SocketAddrV4};
use crate::error::Error;
use crate::firewall::{
    attribute, attribute_number, claim_verdict, is_name_char, is_p2p_name, is_valid_name, name_verdict,
    validated, GroupInterface, Observation, Rules,
};
use crate::number::{is_digit, lemma_leading_digits, lemma_leading_digits_are, number};
use crate::service::{
    address_verdict, authorization, ownership, socket_verdict, Health, NetworkService,
    PolicyReply, Session, Sink, SocketKind, SocketReport,
};
use crate::setup::{is_peer, is_peer_char, request_verdict};
use crate::text::{decimal, is_space, trimmed};
use vstd::prelude::*;

verus! {

/// An ASCII letter or digit, an underscore or a hyphen, by its code.
pub open spec fn is_safe(c: char) -> bool {
    let code = c as int;
    48 <= code <= 57 || 65 <= code <= 90 || 97 <= code <= 122 || code == 95 || code == 45
}

/// An ASCII hexadecimal digit or a colon, by its code.
pub open spec fn is_address_char(c: char) -> bool {
    let code = c as int;
    48 <= code <= 57 || 65 <= code <= 70 || 97 <= code <= 102 || code == 58
}

/// A name is accepted if and only if it has one to fifteen characters, each of
/// them an ASCII letter or digit, an underscore or a hyphen.
pub proof fn law_accepted_names(name: Seq<char>)
    ensures
        is_valid_name(name) <==> 1 <= name.len() && name.len() <= 15 && forall|i: int|
            0 <= i < name.len() ==> is_safe(#[trigger] name[i]),
        is_p2p_name(name) <==> name == "p2p0"@ || name.len() >= 4 && name[0] == 'p' && name[1] == '2'
            && name[2] == 'p' && name[3] == '-',
{
    reveal_strlit("p2p-");
    assert(forall|c: char| #[trigger] is_safe(c) <==> is_name_char(c));
    if name.len() >= 4 && name[0] == 'p' && name[1] == '2' && name[2] == 'p' && name[3] == '-' {
        assert(name.subrange(0, 4) =~= "p2p-"@);
    }
    if "p2p-"@.is_prefix_of(name) {
        let head = name.subrange(0, 4);
        assert(head == "p2p-"@);
        assert(name[0] == head[0] && name[1] == head[1] && name[2] == head[2] && name[3] == head[3]);
    }
}

/// A request is well formed if and only if its radio has an acceptable name and its
/// peer is seventeen hexadecimal digits and colons; the radio is judged first.
pub proof fn law_accepted_requests(radio: Seq<char>, peer: Seq<char>)
    ensures
        ({
            let is_address = peer.len() == 17 && forall|i: int|
                0 <= i < peer.len() ==> is_address_char(#[trigger] peer[i]);
            &&& request_verdict(radio, peer) is Ok <==> is_valid_name(radio) && is_address
            &&& !is_valid_name(radio) <==> request_verdict(radio, peer) == Err::<(), Error>(
                Error::InvalidName,
            )
            &&& is_valid_name(radio) && !is_address <==> request_verdict(radio, peer) == Err::<(), Error>(
                Error::InvalidPeer,
            )
        }),
{
    assert(forall|c: char| #[trigger] is_address_char(c) <==> is_peer_char(c));
    if is_peer(peer) {
        assert forall|i: int| 0 <= i < peer.len() implies is_address_char(#[trigger] peer[i]) by {
            assert(is_peer_char(peer[i]));
        }
    }
}

/// Every number is read back from its numeral, with or without a plus sign; one
/// beyond 32 bits is refused as such, and text without characters as that.
pub proof fn law_numbers_are_read_back(n: nat)
    ensures
        n <= u32::MAX ==> number(decimal(n)) == Ok::<u32, Error>(n as u32) && number(
            seq!['+'] + decimal(n),
        ) == Ok::<u32, Error>(n as u32),
        n > u32::MAX ==> number(decimal(n)) == Err::<u32, Error>(Error::NumberTooLarge),
        number(Seq::<char>::empty()) == Err::<u32, Error>(Error::EmptyNumber),
{
    let digits = decimal(n);
    let signed = seq!['+'] + digits;
    lemma_decimal_value(n);
    lemma_leading_digits_are(digits, digits.len() as int);
    assert(digits.take(digits.len() as int) =~= digits);
    assert(is_digit(digits[0]));
    assert(signed.skip(1) =~= digits);
}

/// Only digits after an optional plus sign make a number.
pub proof fn law_only_digits_make_numbers(s: Seq<char>)
    ensures
        number(s) is Ok ==> {
            let body = if s.len() > 1 && s[0] == '+' {
                s.skip(1)
            } else {
                s
            };
            body.len() > 0 && forall|i: int|
                0 <= i < body.len() ==> is_digit(#[trigger] body[i]) && 48 <= body[i] as int <= 57
        },
{
    let body = if s.len() > 1 && s[0] == '+' {
        s.skip(1)
    } else {
        s
    };
    lemma_leading_digits(body);
    if number(s) is Ok {
        assert forall|i: int| 0 <= i < body.len() implies is_digit(#[trigger] body[i]) && 48
            <= body[i] as int <= 57 by {
            assert(is_digit(body[i]));
        }
    }
}

proof fn lemma_trim_front(white: Seq<char>, s: Seq<char>)
    requires
        forall|i: int| 0 <= i < white.len() ==> is_space(#[trigger] white[i]),
    ensures
        trimmed(white + s) == trimmed(s),
    decreases white.len(),
{
    if white.len() > 0 {
        let rest = white.skip(1);
        assert forall|i: int| 0 <= i < rest.len() implies is_space(#[trigger] rest[i]) by {
            assert(rest[i] == white[i + 1]);
        }
        lemma_trim_front(rest, s);
        assert((white + s)[0] == white[0]);
        assert((white + s).skip(1) =~= rest + s);
    } else {
        assert(white + s =~= s);
    }
}

proof fn lemma_trim_back(s: Seq<char>, white: Seq<char>)
    requires
        s.len() > 0,
        !is_space(s[0]),
        !is_space(s.last()),
        forall|i: int| 0 <= i < white.len() ==> is_space(#[trigger] white[i]),
    ensures
        trimmed(s + white) == s,
    decreases white.len(),
{
    if white.len() > 0 {
        let front = white.drop_last();
        assert forall|i: int| 0 <= i < front.len() implies is_space(#[trigger] front[i]) by {
            assert(front[i] == white[i]);
        }
        lemma_trim_back(s, front);
        assert((s + white)[0] == s[0]);
        assert((s + white).last() == white[white.len() - 1]);
        assert((s + white).drop_last() =~= s + front);
    } else {
        assert(s + white =~= s);
    }
}

/// Trimming takes off exactly the white space at both ends.
pub proof fn law_trimming(before: Seq<char>, s: Seq<char>, after: Seq<char>)
    requires
        forall|i: int| 0 <= i < before.len() ==> is_space(#[trigger] before[i]),
        forall|i: int| 0 <= i < after.len() ==> is_space(#[trigger] after[i]),
        s.len() > 0 ==> !is_space(s[0]) && !is_space(s.last()),
    ensures
        trimmed(before + s + after) == s,
{
    assert(before + s + after =~= before + (s + after));
    lemma_trim_front(before, s + after);
    if s.len() > 0 {
        lemma_trim_back(s, after);
    } else {
        lemma_trim_front(after, s);
        assert(s + after =~= after + s);
        assert(trimmed(s) =~= s);
    }
}

/// An attribute file holds a number with white space around it; a file that could
/// not be read stays the failure it was.
pub proof fn law_attributes_hold_numbers(
    content: String,
    before: Seq<char>,
    n: u32,
    after: Seq<char>,
    failed: Error,
)
    requires
        forall|i: int| 0 <= i < before.len() ==> is_space(#[trigger] before[i]),
        forall|i: int| 0 <= i < after.len() ==> is_space(#[trigger] after[i]),
        content@ == before + decimal(n as nat) + after,
    ensures
        attribute_number(Ok(content)) == Ok::<u32, Error>(n),
        attribute_number(Err(failed)) == Err::<u32, Error>(failed),
{
    let digits = decimal(n as nat);
    lemma_decimal_value(n as nat);
    assert(is_digit(digits[0]) && is_digit(digits[digits.len() - 1]));
    law_trimming(before, digits, after);
    law_numbers_are_read_back(n as nat);
}

/// Where the kernel shows the attributes of an interface.
pub proof fn law_attribute_paths(name: Seq<char>)
    ensures
        attribute(name, "ifindex"@) == "/sys/class/net/"@ + name + "/ifindex"@,
        attribute(name, "netdev_group"@) == "/sys/class/net/"@ + name + "/netdev_group"@,
        attribute(name, "phy80211"@) == "/sys/class/net/"@ + name + "/phy80211"@,
{
    reveal_strlit("/");
    reveal_strlit("ifindex");
    reveal_strlit("/ifindex");
    reveal_strlit("netdev_group");
    reveal_strlit("/netdev_group");
    reveal_strlit("phy80211");
    reveal_strlit("/phy80211");
    assert("/"@ + "ifindex"@ =~= "/ifindex"@);
    assert("/"@ + "netdev_group"@ =~= "/netdev_group"@);
    assert("/"@ + "phy80211"@ =~= "/phy80211"@);
    let root = "/sys/class/net/"@ + name;
    assert(root + "/"@ + "ifindex"@ =~= root + ("/"@ + "ifindex"@));
    assert(root + "/"@ + "netdev_group"@ =~= root + ("/"@ + "netdev_group"@));
    assert(root + "/"@ + "phy80211"@ =~= root + ("/"@ + "phy80211"@));
}

/// An interface is the one that was validated if and only if its index and its
/// radio are the same, and carries the tag if and only if its group is the reserved one.
pub proof fn law_presence_is_exact(interface: GroupInterface, seen: Observation)
    ensures
        interface.identified(seen) <==> attribute_number(seen.index) == Ok::<u32, Error>(interface.index)
            && seen.phy is Ok && seen.phy->Ok_0@ == interface.phy@,
        interface.present(seen) <==> attribute_number(seen.index) == Ok::<u32, Error>(interface.index)
            && seen.phy is Ok && seen.phy->Ok_0@ == interface.phy@ && attribute_number(seen.group) == Ok::<
            u32,
            Error,
        >(5719620),
{
}

/// A group-start event is accepted if and only if both names are acceptable, the
/// second is that of a P2P data interface, and the interface is linked to the radio
/// and keeps its index. What comes out has that name, index and radio.
pub proof fn law_validation_is_exact(
    radio: Seq<char>,
    name: String,
    radio_phy: Result<String, Error>,
    index: Result<String, Error>,
    seen: Observation,
)
    ensures
        validated(radio, name, radio_phy, index, seen) is Ok <==> {
            &&& is_valid_name(radio)
            &&& is_valid_name(name@)
            &&& is_p2p_name(name@)
            &&& radio_phy is Ok
            &&& attribute_number(index) is Ok
            &&& attribute_number(seen.index) == attribute_number(index)
            &&& seen.phy is Ok && seen.phy->Ok_0@ == radio_phy->Ok_0@
        },
        validated(radio, name, radio_phy, index, seen) matches Ok(interface) ==> interface.name == name
            && Ok::<u32, Error>(interface.index) == attribute_number(index) && Ok::<String, Error>(
            interface.phy,
        ) == radio_phy,
        !is_valid_name(radio) || !is_valid_name(name@) ==> validated(radio, name, radio_phy, index, seen)
            == Err::<GroupInterface, Error>(Error::InvalidName),
        is_valid_name(radio) && is_valid_name(name@) && !is_p2p_name(name@) ==> validated(
            radio,
            name,
            radio_phy,
            index,
            seen,
        ) == Err::<GroupInterface, Error>(Error::NotP2pInterface),
        name_verdict(radio, name@) is Ok && radio_phy is Err ==> validated(
            radio,
            name,
            radio_phy,
            index,
            seen,
        ) == Err::<GroupInterface, Error>(radio_phy->Err_0),
        name_verdict(radio, name@) is Ok && radio_phy is Ok && attribute_number(index) is Ok && validated(
            radio,
            name,
            radio_phy,
            index,
            seen,
        ) is Err ==> validated(radio, name, radio_phy, index, seen)->Err_0 == Error::WrongRadio,
        name_verdict(radio, name@) is Ok && radio_phy is Ok && attribute_number(index) is Err
            ==> validated(radio, name, radio_phy, index, seen) == Err::<GroupInterface, Error>(
            attribute_number(index)->Err_0,
        ),
        name_verdict(radio, name@) is Ok <==> is_valid_name(radio) && is_valid_name(name@) && is_p2p_name(
            name@,
        ),
{
}

/// An interface may be tagged if and only if it is still the validated one, and in
/// no device group or in the reserved one.
pub proof fn law_claims_are_exact(interface: GroupInterface, seen: Observation)
    ensures
        claim_verdict(interface, seen) is Ok <==> interface.identified(seen) && (attribute_number(
            seen.group,
        ) == Ok::<u32, Error>(0) || attribute_number(seen.group) == Ok::<u32, Error>(5719620)),
        !interface.identified(seen) ==> claim_verdict(interface, seen) == Err::<(), Error>(
            Error::ReplacedBeforeSetup,
        ),
        interface.identified(seen) && attribute_number(seen.group) is Err ==> claim_verdict(interface, seen)
            == Err::<(), Error>(attribute_number(seen.group)->Err_0),
        interface.identified(seen) && attribute_number(seen.group) is Ok && claim_verdict(
            interface,
            seen,
        ) is Err ==> claim_verdict(interface, seen) == Err::<(), Error>(Error::ForeignDeviceGroup),
{
}

/// An address is read from four numerals with full stops between them, in this order.
pub proof fn law_addresses_are_read_back(a: u8, b: u8, c: u8, d: u8)
    ensures
        parsed(
            decimal(a as nat) + "."@ + decimal(b as nat) + "."@ + decimal(c as nat) + "."@ + decimal(
                d as nat,
            ),
        ) == Ok::<Ipv4Addr, Error>(Ipv4Addr { a, b, c, d }),
        forall|port: u16| #[trigger]
            ipv4_verdict(Some((a, b, c, d, port))) == Ok::<SocketAddrV4, Error>(
                SocketAddrV4 { ip: Ipv4Addr { a, b, c, d }, port },
            ),
        ipv4_verdict(None) == Err::<SocketAddrV4, Error>(Error::NotIpv4),
{
    let ip = Ipv4Addr { a, b, c, d };
    let text = decimal(a as nat) + "."@ + decimal(b as nat) + "."@ + decimal(c as nat) + "."@ + decimal(
        d as nat,
    );
    assert(ip.text() =~= text);
    let found = choose|found: Ipv4Addr| #[trigger] found.text() == text;
    assert(found.text() == text);
    law_notation_is_unique(found, ip);
}

/// Nothing else than four numerals with full stops between them is an address.
pub proof fn law_only_notations_are_addresses(s: Seq<char>)
    ensures
        match parsed(s) {
            Ok(ip) => s == decimal(ip.a as nat) + "."@ + decimal(ip.b as nat) + "."@ + decimal(ip.c as nat)
                + "."@ + decimal(ip.d as nat),
            Err(refused) => refused == Error::AddressSyntax,
        },
{
    if parsed(s) is Ok {
        let found = choose|found: Ipv4Addr| #[trigger] found.text() == s;
        assert(found.text() == s);
    }
}

/// Whether the facts of a session admit four endpoints: all bound to the local
/// address, the control connection on port 7236 or to the display's port, with
/// another unicast host that is the group owner or, where the source owns the
/// group, in its /24, and an unprivileged even port with the odd one after it.
pub open spec fn facts_admit(
    local: Ipv4Addr,
    go: Ipv4Addr,
    group_owner: bool,
    rtsp_port: u16,
    control: SocketAddrV4,
    peer: SocketAddrV4,
    rtp: SocketAddrV4,
    rtcp: SocketAddrV4,
) -> bool {
    &&& control.ip == local
    &&& rtp.ip == local
    &&& rtcp.ip == local
    &&& control.port == 7236 || peer.port == rtsp_port
    &&& peer.ip != local
    &&& peer.ip.a != 127
    &&& peer.ip.a < 224 || peer.ip.a > 239
    &&& peer.ip.d != 0
    &&& peer.ip.d != 255
    &&& if group_owner {
        peer.ip.a == local.a && peer.ip.b == local.b && peer.ip.c == local.c
    } else {
        peer.ip == go
    }
    &&& rtp.port >= 1024
    &&& rtp.port % 2 == 0
    &&& rtcp.port == rtp.port + 1
}

/// Endpoints are accepted if and only if the session's facts admit them; each
/// refusal has its reason, and the first one counts.
pub proof fn law_endpoints_are_judged_by_the_facts(
    local: Ipv4Addr,
    go: Ipv4Addr,
    group_owner: bool,
    rtsp_port: u16,
    control: SocketAddrV4,
    peer: SocketAddrV4,
    rtp: SocketAddrV4,
    rtcp: SocketAddrV4,
)
    ensures
        ({
            let verdict = address_verdict(local, go, group_owner, rtsp_port, control, peer, rtp, rtcp);
            let bound = control.ip == local && rtp.ip == local && rtcp.ip == local;
            let agreed = control.port == 7236 || peer.port == rtsp_port;
            let unicast = peer.ip != local && peer.ip.a != 127 && !(224 <= peer.ip.a <= 239) && peer.ip.d
                != 0 && peer.ip.d != 255;
            let near = peer.ip.a == local.a && peer.ip.b == local.b && peer.ip.c == local.c;
            let expected = if group_owner {
                near
            } else {
                peer.ip == go
            };
            &&& verdict is Ok <==> facts_admit(
                local,
                go,
                group_owner,
                rtsp_port,
                control,
                peer,
                rtp,
                rtcp,
            )
            &&& verdict == Err::<(), Error>(Error::ForeignLocalAddress) <==> !bound
            &&& verdict == Err::<(), Error>(Error::WrongControlPort) <==> bound && !agreed
            &&& verdict == Err::<(), Error>(Error::InvalidPeerAddress) <==> bound && agreed && !unicast
            &&& verdict == Err::<(), Error>(Error::PeerOutsideGroup) <==> bound && agreed && unicast
                && group_owner && !near
            &&& verdict == Err::<(), Error>(Error::PeerNotGroupOwner) <==> bound && agreed && unicast
                && !group_owner && peer.ip != go
            &&& verdict == Err::<(), Error>(Error::WrongMediaPorts) <==> bound && agreed && unicast
                && expected && !(rtp.port >= 1024 && rtp.port % 2 == 0 && rtcp.port == rtp.port + 1)
        }),
{
}

/// A media request is accepted if and only if its sockets are a stream and two
/// datagram sockets with IPv4 endpoints that the session's own facts admit: its
/// local address, its role, the display's advertised port and the group owner's
/// address. It is accepted for the control connection's peer and the RTCP port.
pub proof fn law_media_is_judged_by_the_session(rules: Rules, sink: Sink, report: SocketReport)
    ensures
        socket_verdict(rules, sink, report) is Ok <==> {
            &&& report.control_kind == Ok::<SocketKind, Error>(SocketKind::Stream)
            &&& report.rtp_kind == Ok::<SocketKind, Error>(SocketKind::Datagram)
            &&& report.rtcp_kind == Ok::<SocketKind, Error>(SocketKind::Datagram)
            &&& report.control is Ok && report.peer is Ok && report.rtp is Ok && report.rtcp is Ok
            &&& rules.local is Some
            &&& sink.go_ip_address is Some
            &&& parsed(sink.go_ip_address->0@) is Ok
            &&& facts_admit(
                rules.local->0,
                parsed(sink.go_ip_address->0@)->Ok_0,
                rules.group_owner,
                sink.rtsp_port,
                report.control->Ok_0,
                report.peer->Ok_0,
                report.rtp->Ok_0,
                report.rtcp->Ok_0,
            )
        },
        socket_verdict(rules, sink, report) matches Ok((ip, port)) ==> report.peer is Ok && ip
            == report.peer->Ok_0.ip && report.rtcp is Ok && port == report.rtcp->Ok_0.port,
{
    if report.control is Ok && report.peer is Ok && report.rtp is Ok && report.rtcp is Ok
        && rules.local is Some && sink.go_ip_address is Some && parsed(
        sink.go_ip_address->0@,
    ) is Ok {
        law_endpoints_are_judged_by_the_facts(
            rules.local->0,
            parsed(sink.go_ip_address->0@)->Ok_0,
            rules.group_owner,
            sink.rtsp_port,
            report.control->Ok_0,
            report.peer->Ok_0,
            report.rtp->Ok_0,
            report.rtcp->Ok_0,
        );
    }
}

/// Why a media request is refused before its endpoints are judged: a failed query
/// stays the failure it was, a socket of the wrong type is refused as such, and the
/// session must know its own and the group owner's address.
pub proof fn law_media_refusals(rules: Rules, sink: Sink, report: SocketReport)
    ensures
        ({
            let kinds = seq![report.control_kind, report.rtp_kind, report.rtcp_kind];
            let wanted = seq![SocketKind::Stream, SocketKind::Datagram, SocketKind::Datagram];
            let reported = report.control is Ok && report.peer is Ok && report.rtp is Ok && report.rtcp is Ok;
            let typed = report.control_kind == Ok::<SocketKind, Error>(SocketKind::Stream) && report.rtp_kind
                == Ok::<SocketKind, Error>(SocketKind::Datagram) && report.rtcp_kind == Ok::<
                SocketKind,
                Error,
            >(SocketKind::Datagram);
            let verdict = socket_verdict(rules, sink, report);
            &&& forall|i: int|
                0 <= i < 3 && (forall|k: int| 0 <= k < i ==> #[trigger] kinds[k] == Ok::<SocketKind, Error>(
                    wanted[k],
                )) && #[trigger] kinds[i] != Ok::<SocketKind, Error>(wanted[i]) ==> verdict == Err::<
                    (Ipv4Addr, u16),
                    Error,
                >(
                    match kinds[i] {
                        Ok(_) => Error::WrongSocketTypes,
                        Err(failed) => failed,
                    },
                )
            &&& typed && report.control is Err ==> verdict == Err::<(Ipv4Addr, u16), Error>(
                report.control->Err_0,
            )
            &&& typed && report.control is Ok && report.peer is Err ==> verdict == Err::<
                (Ipv4Addr, u16),
                Error,
            >(report.peer->Err_0)
            &&& typed && report.control is Ok && report.peer is Ok && report.rtp is Err ==> verdict == Err::<
                (Ipv4Addr, u16),
                Error,
            >(report.rtp->Err_0)
            &&& typed && report.control is Ok && report.peer is Ok && report.rtp is Ok && report.rtcp is Err
                ==> verdict == Err::<(Ipv4Addr, u16), Error>(report.rtcp->Err_0)
            &&& typed && reported && rules.local is None ==> verdict == Err::<(Ipv4Addr, u16), Error>(
                Error::NoGroupAddress,
            )
            &&& typed && reported && rules.local is Some && sink.go_ip_address is None ==> verdict == Err::<
                (Ipv4Addr, u16),
                Error,
            >(Error::MissingGroupOwner)
            &&& typed && reported && rules.local is Some && sink.go_ip_address is Some && parsed(
                sink.go_ip_address->0@,
            ) is Err ==> verdict == Err::<(Ipv4Addr, u16), Error>(Error::AddressSyntax)
            &&& typed && reported && rules.local is Some && sink.go_ip_address is Some && parsed(
                sink.go_ip_address->0@,
            ) is Ok ==> match address_verdict(
                rules.local->0,
                parsed(sink.go_ip_address->0@)->Ok_0,
                rules.group_owner,
                sink.rtsp_port,
                report.control->Ok_0,
                report.peer->Ok_0,
                report.rtp->Ok_0,
                report.rtcp->Ok_0,
            ) {
                Err(refused) => verdict == Err::<(Ipv4Addr, u16), Error>(refused),
                Ok(_) => verdict == Ok::<(Ipv4Addr, u16), Error>(
                    (report.peer->Ok_0.ip, report.rtcp->Ok_0.port),
                ),
            }
        }),
{
    let kinds = seq![report.control_kind, report.rtp_kind, report.rtcp_kind];
    let wanted = seq![SocketKind::Stream, SocketKind::Datagram, SocketKind::Datagram];
    let verdict = socket_verdict(rules, sink, report);
    assert forall|i: int|
        0 <= i < 3 && (forall|k: int| 0 <= k < i ==> #[trigger] kinds[k] == Ok::<SocketKind, Error>(
            wanted[k],
        )) && #[trigger] kinds[i] != Ok::<SocketKind, Error>(wanted[i]) implies verdict == Err::<
        (Ipv4Addr, u16),
        Error,
    >(
        match kinds[i] {
            Ok(_) => Error::WrongSocketTypes,
            Err(failed) => failed,
        },
    ) by {
        if i > 0 {
            assert(kinds[0] == Ok::<SocketKind, Error>(wanted[0]));
        }
        if i > 1 {
            assert(kinds[1] == Ok::<SocketKind, Error>(wanted[1]));
        }
    }
}

/// What a media request of a caller comes to: there must be a session, it must be
/// the caller's, and its sockets must be acceptable. The rules then differ from the
/// session's in nothing but the peer and the RTCP ports.
pub proof fn law_media_plans<C, K>(
    service: NetworkService<C, K>,
    session: Session<C, K>,
    caller: Seq<char>,
    report: SocketReport,
    sink_rtcp: u16,
)
    ensures
        service.session is None ==> service.media_plan(caller, report, sink_rtcp) == Err::<Rules, Error>(
            Error::NoSession,
        ) && service.admission(caller) == Err::<(), Error>(Error::NoSession),
        service.session == Some(session) && caller != session.owner@ ==> service.media_plan(
            caller,
            report,
            sink_rtcp,
        ) == Err::<Rules, Error>(Error::NotOwner) && service.admission(caller) == Err::<(), Error>(
            Error::NotOwner,
        ),
        service.session == Some(session) && caller == session.owner@ ==> service.admission(caller) is Ok
            && match socket_verdict(session.rules, session.sink, report) {
            Err(refused) => service.media_plan(caller, report, sink_rtcp) == Err::<Rules, Error>(refused),
            Ok((ip, port)) => service.media_plan(caller, report, sink_rtcp) matches Ok(rules)
                && rules.interface == session.rules.interface && rules.group_owner
                == session.rules.group_owner && rules.rtsp == session.rules.rtsp && rules.local
                == session.rules.local && rules.peer == Some(ip) && (sink_rtcp == 0 ==> rules.rtcp is None) && (
            sink_rtcp != 0 ==> rules.rtcp == Some((port, sink_rtcp))),
        },
{
}

/// What each request does to the service, by the session that there was.
pub proof fn law_what_requests_do<C, K>(
    service: NetworkService<C, K>,
    session: Session<C, K>,
    other: Session<C, K>,
    caller: Seq<char>,
    rules: Rules,
    failed: Error,
    sockets: K,
    health: Health,
)
    requires
        service.session == Some(session),
    ensures
        service.alive(caller) <==> session.owner@ == caller,
        session.owner@ == caller ==> service.after_end(caller).session is None,
        session.owner@ != caller ==> service.after_end(caller).session == Some(session),
        service.after_install(other).session == Some(session),
        service.after_end(session.owner@).after_install(other).session == Some(other),
        service.after_media(rules, Err(failed), sockets).session == Some(session),
        service.after_media(rules, Ok(()), sockets).session matches Some(now) && now.rules == rules
            && now.sockets == Some(sockets) && now.owner == session.owner && now.connection
            == session.connection && now.sink == session.sink,
        service.after_supervision(health).session is None <==> health.owner == Some(false)
            || health.connection == Some(false) || health.rules == Some(false),
        service.after_supervision(health).session is Some ==> service.after_supervision(health).session
            == Some(session),
{
}

/// A caller owns a session if and only if its name is the owner's.
pub proof fn law_ownership(actual: Seq<char>, expected: Seq<char>)
    ensures
        actual == expected ==> ownership(actual, expected) is Ok,
        actual != expected ==> ownership(actual, expected) == Err::<(), Error>(Error::NotOwner),
{
}

/// A caller is authorized if and only if the policy says so, whether or not it
/// would ask for more; a failure to ask stays the failure it was.
pub proof fn law_authorization(reply: PolicyReply, failed: Error)
    ensures
        reply.authorized ==> authorization(Ok(reply)) is Ok,
        !reply.authorized ==> authorization(Ok(reply)) == Err::<(), Error>(Error::AuthorizationDenied),
        authorization(Err(failed)) == Err::<(), Error>(failed),
{
}

} // verus!

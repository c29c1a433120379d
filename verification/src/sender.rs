use vstd::prelude::*;
use crate::text::{concat2, owned, starts_with, text_from};

verus! {

/// The address to probe a local command endpoint at: an endpoint bound to
/// every IPv4 interface is reached on the IPv4 loopback, one bound to every
/// IPv6 interface on the IPv6 loopback, any other at its own address.
pub fn command_probe_addr(bind_addr: &str) -> (r: String)
    ensures
        "0.0.0.0:"@.is_prefix_of(bind_addr@) ==> r@ == "127.0.0.1:"@ + bind_addr@.skip("0.0.0.0:"@.len() as int),
        !"0.0.0.0:"@.is_prefix_of(bind_addr@) && "[::]:"@.is_prefix_of(bind_addr@) ==> r@ == "[::1]:"@
            + bind_addr@.skip("[::]:"@.len() as int),
        !"0.0.0.0:"@.is_prefix_of(bind_addr@) && !"[::]:"@.is_prefix_of(bind_addr@) ==> r@ == bind_addr@,
{
    let chars = crate::text::chars_of(bind_addr);
    proof {
        reveal_strlit("0.0.0.0:");
        reveal_strlit("[::]:");
    }
    if starts_with(bind_addr, "0.0.0.0:") {
        let port = text_from(&chars, 8);
        return concat2("127.0.0.1:", port.as_str());
    }
    if starts_with(bind_addr, "[::]:") {
        let port = text_from(&chars, 5);
        return concat2("[::1]:", port.as_str());
    }
    owned(bind_addr)
}

/// How a UI self-test ended, to be logged: as completed when its status
/// begins with `PASS`, else as failed.
#[derive(Debug)]
pub struct UiTestReport {
    pub test_name: String,
    pub status: String,
    pub passed: bool,
}

/// The report of a UI self-test with this status.
pub fn log_ui_test_status(test_name: &str, status: &str) -> (r: UiTestReport)
    ensures
        r.test_name@ == test_name@,
        r.status@ == status@,
        r.passed == "PASS"@.is_prefix_of(status@),
{
    UiTestReport { test_name: owned(test_name), status: owned(status), passed: starts_with(status, "PASS") }
}

/// How much a status line of the casting view matters.
#[derive(Clone, Copy, Debug, PartialEq, Eq, Structural)]
pub enum StatusSeverity {
    Info,
    Warning,
    Error,
}

/// A labelled status line of the casting view.
#[derive(Debug)]
pub struct StatusItem {
    pub label: String,
    pub value: String,
    pub severity: StatusSeverity,
}

/// The status lines of a cast: the receiver, the encoder and the network,
/// each for information.
pub fn build_status_items(receiver_name: &str, encoder: &str, network: &str) -> (items: Vec<StatusItem>)
    ensures
        items@.len() == 3,
        items@[0].label@ == "Receiver"@ && items@[0].value@ == receiver_name@,
        items@[1].label@ == "Encoder"@ && items@[1].value@ == encoder@,
        items@[2].label@ == "Network"@ && items@[2].value@ == network@,
        forall|i: int| 0 <= i < 3 ==> #[trigger] items@[i].severity == StatusSeverity::Info,
{
    let mut items: Vec<StatusItem> = Vec::new();
    items.push(StatusItem { label: owned("Receiver"), value: owned(receiver_name), severity: StatusSeverity::Info });
    items.push(StatusItem { label: owned("Encoder"), value: owned(encoder), severity: StatusSeverity::Info });
    items.push(StatusItem { label: owned("Network"), value: owned(network), severity: StatusSeverity::Info });
    items
}

/// Whether screen capture runs, and whether a captured frame waits to be sent.
#[derive(Debug)]
pub struct CaptureState {
    pub active: bool,
    pub frame_pending: bool,
}

/// Turns capture on or off; turning it off drops the waiting frame, and the
/// threads waiting for a frame are then to be woken (the result tells so).
pub fn set_capture_active(state: &mut CaptureState, active: bool) -> (wake: bool)
    ensures
        final(state).active == active,
        final(state).frame_pending == (active && old(state).frame_pending),
        wake == !active,
{
    state.active = active;
    if !active {
        state.frame_pending = false;
    }
    !active
}

/// The address of a discovered receiver, as the discovery service hands it over.
#[derive(Debug)]
pub enum ServiceAddress {
    V4(u8, u8, u8, u8),
    V6 { octets: Vec<u8>, scope_id: u32 },
}

/// A buffer from the discovery service holds an address: it has four bytes
/// (IPv4) or twenty (IPv6 and its scope id).
pub open spec fn address_buffer(b: Seq<u8>) -> bool {
    b.len() == 4 || b.len() == 20
}

/// `a` is the address that buffer `b` holds.
pub open spec fn address_in(a: ServiceAddress, b: Seq<u8>) -> bool {
    match a {
        ServiceAddress::V4(x0, x1, x2, x3) => b.len() == 4 && x0 == b[0] && x1 == b[1] && x2 == b[2] && x3 == b[3],
        ServiceAddress::V6 { octets, scope_id } => b.len() == 20 && octets@ == b.take(16) && scope_id == b[16] + 256
            * b[17] + 65536 * b[18] + 16777216 * b[19],
    }
}

/// The buffers of `bs` that hold an address, in order.
pub open spec fn address_buffers(bs: Seq<Seq<u8>>) -> Seq<Seq<u8>>
    decreases bs.len(),
{
    if bs.len() == 0 {
        Seq::empty()
    } else if address_buffer(bs.last()) {
        address_buffers(bs.drop_last()).push(bs.last())
    } else {
        address_buffers(bs.drop_last())
    }
}

/// The address in a buffer from the discovery service: four bytes for IPv4;
/// twenty for IPv6, the sixteen bytes of the address and its scope id in
/// little-endian order; no address for any other length.
pub fn decode_service_address(bytes: &[u8]) -> (r: Option<ServiceAddress>)
    ensures
        r matches Some(a) ==> address_in(a, bytes@),
        r is Some <==> address_buffer(bytes@),
        bytes@.len() == 4 ==> r == Some(ServiceAddress::V4(bytes@[0], bytes@[1], bytes@[2], bytes@[3])),
        bytes@.len() == 20 ==> (r matches Some(ServiceAddress::V6 { octets, scope_id }) && octets@ == bytes@.take(16)
            && scope_id == bytes@[16] + 256 * bytes@[17] + 65536 * bytes@[18] + 16777216 * bytes@[19]),
        bytes@.len() != 4 && bytes@.len() != 20 ==> r is None,
{
    if bytes.len() == 4 {
        return Some(ServiceAddress::V4(bytes[0], bytes[1], bytes[2], bytes[3]));
    }
    if bytes.len() != 20 {
        return None;
    }
    let mut octets: Vec<u8> = Vec::new();
    let mut i: usize = 0;
    while i < 16
        invariant
            bytes@.len() == 20,
            i <= 16,
            octets@ == bytes@.take(i as int),
        decreases 16 - i,
    {
        octets.push(bytes[i]);
        assert(bytes@.take(i + 1) =~= bytes@.take(i as int).push(bytes@[i as int]));
        i = i + 1;
    }
    let scope_id: u32 = bytes[16] as u32 + 256 * (bytes[17] as u32) + 65536 * (bytes[18] as u32) + 16777216 * (bytes[19] as u32);
    Some(ServiceAddress::V6 { octets, scope_id })
}

/// The addresses that a discovered receiver was announced with, one for each
/// buffer that holds one, in order; buffers of any other length are skipped.
pub fn parse_discovered_addresses(bufs: &Vec<Vec<u8>>) -> (r: Vec<ServiceAddress>)
    ensures
        r@.len() == address_buffers(bufs@.map_values(|b: Vec<u8>| b@)).len(),
        forall|i: int| 0 <= i < r@.len() ==> address_in(
            #[trigger] r@[i],
            address_buffers(bufs@.map_values(|b: Vec<u8>| b@))[i],
        ),
{
    let ghost bs = bufs@.map_values(|b: Vec<u8>| b@);
    let mut r: Vec<ServiceAddress> = Vec::new();
    let mut i: usize = 0;
    while i < bufs.len()
        invariant
            i <= bufs@.len(),
            bs == bufs@.map_values(|b: Vec<u8>| b@),
            r@.len() == address_buffers(bs.take(i as int)).len(),
            forall|j: int| 0 <= j < r@.len() ==> address_in(#[trigger] r@[j], address_buffers(bs.take(i as int))[j]),
        decreases bufs@.len() - i,
    {
        assert(bs.take(i + 1).drop_last() =~= bs.take(i as int));
        assert(bs.take(i + 1).last() == bufs@[i as int]@);
        match decode_service_address(bufs[i].as_slice()) {
            Some(a) => {
                r.push(a);
            },
            None => {},
        }
        i = i + 1;
    }
    assert(bs.take(i as int) =~= bs);
    r
}

} // verus!

//! Which endpoints are handed out, request by request.
use vstd::prelude::*;
use crate::driver;
use crate::driver::address::EndpointAddress;
use crate::driver::endpoint::{EndpointInfo, EndpointType, PioEndpointIn, PioEndpointOut};
use crate::driver::hardware::PioUsbHardware;
use crate::driver::state::Configured;
use crate::driver::{EndpointAllocError, PioUsbDriver};

verus! {

/// Endpoint `i` is marked as taken in `mask`.
pub open spec fn is_taken(mask: u16, i: int) -> bool {
    (mask >> (i as u16)) & 1u16 == 1u16
}

/// `after` marks the same endpoints as `before`.
pub open spec fn none_more(before: u16, after: u16) -> bool {
    forall|i: int| 0 <= i < 16 ==> #[trigger] is_taken(after, i) == is_taken(before, i)
}

/// `after` marks endpoint `n` besides those that `before` marks, and no other.
pub open spec fn one_more(before: u16, after: u16, n: int) -> bool {
    forall|i: int| 0 <= i < 16 ==> #[trigger] is_taken(after, i) == (is_taken(before, i) || i == n)
}

/// At first endpoint 0 is taken in both directions, and no other.
pub proof fn law_new_driver(hw: PioUsbHardware<Configured>, driver: PioUsbDriver)
    requires
        call_ensures(PioUsbDriver::new, (hw,), driver),
    ensures
        driver.hw == hw,
        forall|i: int| 0 <= i < 16 ==> #[trigger] is_taken(driver.ep_in_alloc, i) == (i == 0),
        forall|i: int| 0 <= i < 16 ==> #[trigger] is_taken(driver.ep_out_alloc, i) == (i == 0),
{
    assert forall|i: int| 0 <= i < 16 implies #[trigger] is_taken(driver.ep_in_alloc, i) == (i
        == 0) by {
        assert(driver.in_taken().contains(i) == (i == 0));
    }
    assert forall|i: int| 0 <= i < 16 implies #[trigger] is_taken(driver.ep_out_alloc, i) == (i
        == 0) by {
        assert(driver.out_taken().contains(i) == (i == 0));
    }
}

/// Masks whose sets of endpoints differ by one number differ by that mark.
proof fn lemma_marks(before: u16, after: u16, n: int)
    requires
        driver::taken(after) == driver::taken(before).insert(n),
    ensures
        one_more(before, after, n),
{
    assert forall|i: int| 0 <= i < 16 implies #[trigger] is_taken(after, i) == (is_taken(before, i)
        || i == n) by {
        assert(driver::taken(after).contains(i) == (driver::taken(before).contains(i)
            || i == n));
    }
}

/// Masks with the same set of endpoints have the same marks.
proof fn lemma_same_marks(before: u16, after: u16)
    requires
        driver::taken(after) == driver::taken(before),
    ensures
        none_more(before, after),
{
    assert forall|i: int| 0 <= i < 16 implies #[trigger] is_taken(after, i) == is_taken(before, i) by {
        assert(driver::taken(after).contains(i) == is_taken(after, i));
        assert(driver::taken(before).contains(i) == is_taken(before, i));
    }
}

/// A request for a particular IN endpoint is refused if and only if that very number is
/// taken; otherwise that number is granted and marked, whatever else is taken.
pub proof fn law_in_by_number(
    driver: &mut PioUsbDriver,
    ep_type: EndpointType,
    addr: EndpointAddress,
    max_packet_size: u16,
    interval_ms: u8,
    endpoint: Result<PioEndpointIn, EndpointAllocError>,
)
    requires
        addr.raw % 128 < 16,
        call_ensures(
            PioUsbDriver::alloc_endpoint_in,
            (driver, ep_type, Some(addr), max_packet_size, interval_ms),
            endpoint,
        ),
    ensures
        ({
            let n = addr.raw as int % 128;
            &&& endpoint is Err <==> is_taken(old(driver).ep_in_alloc, n)
            &&& endpoint is Err ==> none_more(old(driver).ep_in_alloc, final(driver).ep_in_alloc)
            &&& endpoint matches Ok(granted) ==> granted.info == (EndpointInfo {
                addr: EndpointAddress { raw: (128 + n) as u8 },
                ep_type,
                max_packet_size,
                interval_ms,
            }) && one_more(old(driver).ep_in_alloc, final(driver).ep_in_alloc, n)
        }),
        none_more(old(driver).ep_out_alloc, final(driver).ep_out_alloc),
        final(driver).hw == old(driver).hw,
{
    let n = addr.raw as int % 128;
    assert(old(driver).in_taken().contains(n) == is_taken(old(driver).ep_in_alloc, n));
    lemma_same_marks(old(driver).ep_out_alloc, final(driver).ep_out_alloc);
    match endpoint {
        Ok(granted) => {
            lemma_marks(old(driver).ep_in_alloc, final(driver).ep_in_alloc, n);
            assert(granted.info.addr.raw == 128 + n);
        },
        Err(_) => {
            lemma_same_marks(old(driver).ep_in_alloc, final(driver).ep_in_alloc);
        },
    }
}

/// A request for a particular OUT endpoint is refused if and only if that very number is
/// taken; otherwise that number is granted and marked, whatever else is taken.
pub proof fn law_out_by_number(
    driver: &mut PioUsbDriver,
    ep_type: EndpointType,
    addr: EndpointAddress,
    max_packet_size: u16,
    interval_ms: u8,
    endpoint: Result<PioEndpointOut, EndpointAllocError>,
)
    requires
        addr.raw % 128 < 16,
        call_ensures(
            PioUsbDriver::alloc_endpoint_out,
            (driver, ep_type, Some(addr), max_packet_size, interval_ms),
            endpoint,
        ),
    ensures
        ({
            let n = addr.raw as int % 128;
            &&& endpoint is Err <==> is_taken(old(driver).ep_out_alloc, n)
            &&& endpoint is Err ==> none_more(old(driver).ep_out_alloc, final(driver).ep_out_alloc)
            &&& endpoint matches Ok(granted) ==> granted.info == (EndpointInfo {
                addr: EndpointAddress { raw: n as u8 },
                ep_type,
                max_packet_size,
                interval_ms,
            }) && one_more(old(driver).ep_out_alloc, final(driver).ep_out_alloc, n)
        }),
        none_more(old(driver).ep_in_alloc, final(driver).ep_in_alloc),
        final(driver).hw == old(driver).hw,
{
    let n = addr.raw as int % 128;
    assert(old(driver).out_taken().contains(n) == is_taken(old(driver).ep_out_alloc, n));
    lemma_same_marks(old(driver).ep_in_alloc, final(driver).ep_in_alloc);
    match endpoint {
        Ok(granted) => {
            lemma_marks(old(driver).ep_out_alloc, final(driver).ep_out_alloc, n);
            assert(granted.info.addr.raw == n);
        },
        Err(_) => {
            lemma_same_marks(old(driver).ep_out_alloc, final(driver).ep_out_alloc);
        },
    }
}

/// A request for any IN endpoint is refused if and only if all sixteen are taken; otherwise
/// the lowest free number is granted and marked.
pub proof fn law_in_any(
    driver: &mut PioUsbDriver,
    ep_type: EndpointType,
    max_packet_size: u16,
    interval_ms: u8,
    endpoint: Result<PioEndpointIn, EndpointAllocError>,
)
    requires
        call_ensures(
            PioUsbDriver::alloc_endpoint_in,
            (driver, ep_type, None, max_packet_size, interval_ms),
            endpoint,
        ),
    ensures
        endpoint is Err <==> forall|i: int|
            0 <= i < 16 ==> #[trigger] is_taken(old(driver).ep_in_alloc, i),
        endpoint is Err ==> none_more(old(driver).ep_in_alloc, final(driver).ep_in_alloc),
        endpoint matches Ok(granted) ==> {
            let n = granted.info.addr.raw - 128;
            &&& 0 <= n < 16
            &&& !is_taken(old(driver).ep_in_alloc, n)
            &&& forall|i: int| 0 <= i < n ==> #[trigger] is_taken(old(driver).ep_in_alloc, i)
            &&& one_more(old(driver).ep_in_alloc, final(driver).ep_in_alloc, n)
            &&& granted.info.ep_type == ep_type
            &&& granted.info.max_packet_size == max_packet_size
            &&& granted.info.interval_ms == interval_ms
        },
        none_more(old(driver).ep_out_alloc, final(driver).ep_out_alloc),
        final(driver).hw == old(driver).hw,
{
    let used = old(driver).in_taken();
    assert forall|i: int| 0 <= i < 16 implies used.contains(i) == #[trigger] is_taken(
        old(driver).ep_in_alloc,
        i,
    ) by {}
    lemma_same_marks(old(driver).ep_out_alloc, final(driver).ep_out_alloc);
    match endpoint {
        Ok(granted) => {
            lemma_marks(
                old(driver).ep_in_alloc,
                final(driver).ep_in_alloc,
                granted.info.addr.raw - 128,
            );
            assert(!is_taken(old(driver).ep_in_alloc, granted.info.addr.raw - 128));
        },
        Err(_) => {
            lemma_same_marks(old(driver).ep_in_alloc, final(driver).ep_in_alloc);
            assert forall|i: int| 0 <= i < 16 implies #[trigger] is_taken(
                old(driver).ep_in_alloc,
                i,
            ) by {
                assert(used.contains(i));
            }
        },
    }
}

/// A request for any OUT endpoint is refused if and only if all sixteen are taken; otherwise
/// the lowest free number is granted and marked.
pub proof fn law_out_any(
    driver: &mut PioUsbDriver,
    ep_type: EndpointType,
    max_packet_size: u16,
    interval_ms: u8,
    endpoint: Result<PioEndpointOut, EndpointAllocError>,
)
    requires
        call_ensures(
            PioUsbDriver::alloc_endpoint_out,
            (driver, ep_type, None, max_packet_size, interval_ms),
            endpoint,
        ),
    ensures
        endpoint is Err <==> forall|i: int|
            0 <= i < 16 ==> #[trigger] is_taken(old(driver).ep_out_alloc, i),
        endpoint is Err ==> none_more(old(driver).ep_out_alloc, final(driver).ep_out_alloc),
        endpoint matches Ok(granted) ==> {
            let n = granted.info.addr.raw as int;
            &&& 0 <= n < 16
            &&& !is_taken(old(driver).ep_out_alloc, n)
            &&& forall|i: int| 0 <= i < n ==> #[trigger] is_taken(old(driver).ep_out_alloc, i)
            &&& one_more(old(driver).ep_out_alloc, final(driver).ep_out_alloc, n)
            &&& granted.info.ep_type == ep_type
            &&& granted.info.max_packet_size == max_packet_size
            &&& granted.info.interval_ms == interval_ms
        },
        none_more(old(driver).ep_in_alloc, final(driver).ep_in_alloc),
        final(driver).hw == old(driver).hw,
{
    let used = old(driver).out_taken();
    assert forall|i: int| 0 <= i < 16 implies used.contains(i) == #[trigger] is_taken(
        old(driver).ep_out_alloc,
        i,
    ) by {}
    lemma_same_marks(old(driver).ep_in_alloc, final(driver).ep_in_alloc);
    match endpoint {
        Ok(granted) => {
            lemma_marks(
                old(driver).ep_out_alloc,
                final(driver).ep_out_alloc,
                granted.info.addr.raw as int,
            );
            assert(!is_taken(old(driver).ep_out_alloc, granted.info.addr.raw as int));
        },
        Err(_) => {
            lemma_same_marks(old(driver).ep_out_alloc, final(driver).ep_out_alloc);
            assert forall|i: int| 0 <= i < 16 implies #[trigger] is_taken(
                old(driver).ep_out_alloc,
                i,
            ) by {
                assert(used.contains(i));
            }
        },
    }
}

/// Requests for different numbers do not stand in each other's way, in either order: behind
/// any request for an IN endpoint, a number is granted to a request for it exactly when it was
/// free before and has not just been granted.
pub proof fn law_in_requests_independent(
    driver: &mut PioUsbDriver,
    first_type: EndpointType,
    first_addr: EndpointAddress,
    first: Result<PioEndpointIn, EndpointAllocError>,
    next: &mut PioUsbDriver,
    second_type: EndpointType,
    second_addr: EndpointAddress,
    second: Result<PioEndpointIn, EndpointAllocError>,
    max_packet_size: u16,
    interval_ms: u8,
)
    requires
        first_addr.raw % 128 < 16,
        second_addr.raw % 128 < 16,
        call_ensures(
            PioUsbDriver::alloc_endpoint_in,
            (driver, first_type, Some(first_addr), max_packet_size, interval_ms),
            first,
        ),
        *next == *final(driver),
        call_ensures(
            PioUsbDriver::alloc_endpoint_in,
            (next, second_type, Some(second_addr), max_packet_size, interval_ms),
            second,
        ),
    ensures
        second is Ok <==> !is_taken(old(driver).ep_in_alloc, second_addr.raw as int % 128)
            && second_addr.raw % 128 != first_addr.raw % 128,
{
    law_in_by_number(driver, first_type, first_addr, max_packet_size, interval_ms, first);
    law_in_by_number(next, second_type, second_addr, max_packet_size, interval_ms, second);
}

/// Requests for different numbers do not stand in each other's way, in either order: behind
/// any request for an OUT endpoint, a number is granted to a request for it exactly when it
/// was free before and has not just been granted.
pub proof fn law_out_requests_independent(
    driver: &mut PioUsbDriver,
    first_type: EndpointType,
    first_addr: EndpointAddress,
    first: Result<PioEndpointOut, EndpointAllocError>,
    next: &mut PioUsbDriver,
    second_type: EndpointType,
    second_addr: EndpointAddress,
    second: Result<PioEndpointOut, EndpointAllocError>,
    max_packet_size: u16,
    interval_ms: u8,
)
    requires
        first_addr.raw % 128 < 16,
        second_addr.raw % 128 < 16,
        call_ensures(
            PioUsbDriver::alloc_endpoint_out,
            (driver, first_type, Some(first_addr), max_packet_size, interval_ms),
            first,
        ),
        *next == *final(driver),
        call_ensures(
            PioUsbDriver::alloc_endpoint_out,
            (next, second_type, Some(second_addr), max_packet_size, interval_ms),
            second,
        ),
    ensures
        second is Ok <==> !is_taken(old(driver).ep_out_alloc, second_addr.raw as int % 128)
            && second_addr.raw % 128 != first_addr.raw % 128,
{
    law_out_by_number(driver, first_type, first_addr, max_packet_size, interval_ms, first);
    law_out_by_number(next, second_type, second_addr, max_packet_size, interval_ms, second);
}

} // verus!

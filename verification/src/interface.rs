//! The HID interfaces of a Spotlight: their order, their listing and the one that
//! the app talks to.
use crate::command::VENDOR_PAGE;
use crate::order;
use crate::protocol::{self, is_spotlight};
use crate::text;
use vstd::prelude::*;

verus! {

/// How an interface is attached.
#[derive(Debug, Clone, Copy, PartialEq, Eq, Structural)]
pub enum Bus {
    Unknown,
    Usb,
    Bluetooth,
    I2c,
    Spi,
}

impl Bus {
    pub open spec fn spec_name(self) -> Seq<char> {
        match self {
            Bus::Unknown => "Unknown"@,
            Bus::Usb => "Usb"@,
            Bus::Bluetooth => "Bluetooth"@,
            Bus::I2c => "I2c"@,
            Bus::Spi => "Spi"@,
        }
    }

    pub fn name(self) -> (name: &'static str)
        ensures
            name@ == self.spec_name(),
    {
        match self {
            Bus::Unknown => "Unknown",
            Bus::Usb => "Usb",
            Bus::Bluetooth => "Bluetooth",
            Bus::I2c => "I2c",
            Bus::Spi => "Spi",
        }
    }
}

/// What enumeration tells of one HID interface.
#[derive(Debug)]
pub struct Interface {
    pub vendor: u16,
    pub product: u16,
    pub path: Vec<u8>,
    pub usage_page: u16,
    pub usage: u16,
    pub number: i32,
    pub bus: Bus,
    pub product_name: Option<String>,
}

/// How two interfaces compare: by path, then usage page, then usage.
pub open spec fn interface_sign(a: Interface, b: Interface) -> int {
    let path = order::list_sign(order::values(a.path@), order::values(b.path@), 0);
    let page = order::sign(a.usage_page as int, b.usage_page as int);
    if path != 0 {
        path
    } else if page != 0 {
        page
    } else {
        order::sign(a.usage as int, b.usage as int)
    }
}

/// One interface is listed before another; equal ones keep their order.
pub open spec fn listed_before(all: Seq<Interface>, a: int, b: int) -> bool {
    let order = interface_sign(all[a], all[b]);
    order < 0 || (order == 0 && a < b)
}

fn compare(a: &Interface, b: &Interface) -> (order: i8)
    ensures
        order == interface_sign(*a, *b),
{
    let path = order::compare_bytes(&a.path, &b.path);
    if path != 0 {
        return path;
    }
    let page = order::compare_numbers(a.usage_page as u64, b.usage_page as u64);
    if page != 0 {
        return page;
    }
    order::compare_numbers(a.usage as u64, b.usage as u64)
}

proof fn interfaces_are_ordered(a: Interface, b: Interface, c: Interface)
    ensures
        interface_sign(b, a) == -interface_sign(a, b),
        interface_sign(a, b) <= 0 && interface_sign(b, c) <= 0 ==> interface_sign(a, c) <= 0,
        interface_sign(a, b) <= 0 && interface_sign(b, c) < 0 ==> interface_sign(a, c) < 0,
        interface_sign(a, b) < 0 && interface_sign(b, c) <= 0 ==> interface_sign(a, c) < 0,
{
    let (x, y, z) = (order::values(a.path@), order::values(b.path@), order::values(c.path@));
    order::list_order_is_antisymmetric(x, y, 0);
    if order::list_sign(x, y, 0) <= 0 && order::list_sign(y, z, 0) <= 0 {
        order::list_order_is_transitive(x, y, z, 0);
    }
}

/// The places of the Spotlight interfaces, in listing order.
pub fn interfaces(all: &[Interface]) -> (listed: Vec<usize>)
    ensures
        forall|i: int, j: int|
            #![trigger listed@[i], listed@[j]]
            0 <= i < j < listed@.len() ==> listed_before(
                all@,
                listed@[i] as int,
                listed@[j] as int,
            ),
        forall|i: int|
            0 <= i < listed@.len() ==> (#[trigger] listed@[i]) < all@.len()
                && protocol::spec_is_spotlight(
                all@[listed@[i] as int].vendor,
                all@[listed@[i] as int].product,
            ),
        forall|k: usize|
            k < all@.len() && protocol::spec_is_spotlight(
                all@[k as int].vendor,
                all@[k as int].product,
            ) ==> #[trigger] listed@.contains(k),
{
    let mut listed: Vec<usize> = Vec::new();
    for k in 0..all.len()
        invariant
            forall|i: int, j: int|
                #![trigger listed@[i], listed@[j]]
                0 <= i < j < listed@.len() ==> listed_before(
                    all@,
                    listed@[i] as int,
                    listed@[j] as int,
                ),
            forall|i: int|
                0 <= i < listed@.len() ==> (#[trigger] listed@[i]) < k
                    && protocol::spec_is_spotlight(
                    all@[listed@[i] as int].vendor,
                    all@[listed@[i] as int].product,
                ),
            forall|m: usize|
                m < k && protocol::spec_is_spotlight(
                    all@[m as int].vendor,
                    all@[m as int].product,
                ) ==> #[trigger] listed@.contains(m),
    {
        if is_spotlight(all[k].vendor, all[k].product) {
            let mut place: usize = listed.len();
            while place > 0 && compare(&all[listed[place - 1]], &all[k]) > 0
                invariant
                    place <= listed@.len(),
                    k < all@.len(),
                    forall|i: int|
                        0 <= i < listed@.len() ==> (#[trigger] listed@[i]) < k
                            && protocol::spec_is_spotlight(
                            all@[listed@[i] as int].vendor,
                            all@[listed@[i] as int].product,
                        ),
                    forall|i: int|
                        place <= i < listed@.len() ==> interface_sign(
                            all@[#[trigger] listed@[i] as int],
                            all@[k as int],
                        ) > 0,
                decreases place,
            {
                place = place - 1;
            }
            let ghost before = listed@;
            listed.insert(place, k);
            proof {
                assert forall|i: int, j: int|
                    #![trigger listed@[i], listed@[j]]
                    0 <= i < j < listed@.len() implies listed_before(
                    all@,
                    listed@[i] as int,
                    listed@[j] as int,
                ) by {
                    if i < place && j == place {
                        assert(listed@[i] == before[i]);
                        assert(before[i] < k);
                        if i < place - 1 {
                            assert(listed_before(
                                all@,
                                before[i] as int,
                                before[place - 1] as int,
                            ));
                            interfaces_are_ordered(
                                all@[before[i] as int],
                                all@[before[place - 1] as int],
                                all@[k as int],
                            );
                        }
                    } else if i == place {
                        assert(listed@[j] == before[j - 1]);
                        interfaces_are_ordered(
                            all@[before[j - 1] as int],
                            all@[k as int],
                            all@[k as int],
                        );
                    } else if i < place {
                        assert(listed@[i] == before[i]);
                        if j < place {
                            assert(listed@[j] == before[j]);
                        } else {
                            assert(listed@[j] == before[j - 1]);
                        }
                    } else {
                        assert(listed@[i] == before[i - 1]);
                        assert(listed@[j] == before[j - 1]);
                    }
                }
                assert forall|i: int| 0 <= i < listed@.len() implies (#[trigger] listed@[i]) < k + 1
                    && protocol::spec_is_spotlight(
                    all@[listed@[i] as int].vendor,
                    all@[listed@[i] as int].product,
                ) by {
                    if i < place {
                        assert(listed@[i] == before[i]);
                    } else if i > place {
                        assert(listed@[i] == before[i - 1]);
                    }
                }
                assert forall|m: usize|
                    m < k + 1 && protocol::spec_is_spotlight(
                        all@[m as int].vendor,
                        all@[m as int].product,
                    ) implies #[trigger] listed@.contains(m) by {
                    if m == k {
                        assert(listed@[place as int] == k);
                    } else {
                        assert(before.contains(m));
                        let i = choose|i: int| 0 <= i < before.len() && before[i] == m;
                        if i < place {
                            assert(listed@[i] == m);
                        } else {
                            assert(listed@[i + 1] == m);
                        }
                    }
                }
            }
        }
    }
    listed
}

/// A listing order is the only one: two places in it are never interchangeable.
pub proof fn the_listing_order_is_strict(all: Seq<Interface>, a: int, b: int)
    ensures
        listed_before(all, a, b) ==> !listed_before(all, b, a),
        a == b || listed_before(all, a, b) || listed_before(all, b, a),
{
    interfaces_are_ordered(all[a], all[b], all[a]);
}

/// An interface that the app can control.
pub open spec fn controllable(interface: Interface) -> bool {
    interface.usage_page >= VENDOR_PAGE
}

/// The interface that the app connects to: the first vendor-defined one attached
/// by Bluetooth, or else the first vendor-defined one.
pub fn remote_interface(listed: &[Interface]) -> (chosen: Option<usize>)
    ensures
        match chosen {
            Some(place) => {
                &&& place < listed@.len()
                &&& controllable(listed@[place as int])
                &&& forall|other: int|
                    #![trigger listed@[other]]
                    0 <= other < listed@.len() && controllable(listed@[other]) ==> {
                        if listed@[other].bus == Bus::Bluetooth {
                            listed@[place as int].bus == Bus::Bluetooth && place <= other
                        } else {
                            listed@[place as int].bus == Bus::Bluetooth || place <= other
                        }
                    }
            },
            None => forall|other: int|
                #![trigger listed@[other]]
                0 <= other < listed@.len() ==> !controllable(listed@[other]),
        },
{
    let mut chosen: Option<usize> = None;
    for i in 0..listed.len()
        invariant
            match chosen {
                Some(place) => {
                    &&& place < i
                    &&& controllable(listed@[place as int])
                    &&& listed@[place as int].bus != Bus::Bluetooth
                    &&& forall|other: int|
                        #![trigger listed@[other]]
                        0 <= other < i && controllable(listed@[other]) ==> listed@[other].bus
                            != Bus::Bluetooth && place <= other
                },
                None => forall|other: int|
                    #![trigger listed@[other]]
                    0 <= other < i ==> !controllable(listed@[other]),
            },
    {
        if listed[i].usage_page >= VENDOR_PAGE {
            if listed[i].bus == Bus::Bluetooth {
                return Some(i);
            }
            if chosen.is_none() {
                chosen = Some(i);
            }
        }
    }
    chosen
}

/// An interface number, which is negative where the platform knows none.
pub open spec fn signed(number: i32) -> Seq<char> {
    if number < 0 {
        seq!['-'] + text::decimal((-number) as nat)
    } else {
        text::decimal(number as nat)
    }
}

/// The line of an interface in the listing.
pub open spec fn listing(place: nat, interface: Interface) -> Seq<char> {
    text::decimal(place) + ": "@ + text::hex(interface.vendor as nat, 4) + ":"@ + text::hex(
        interface.product as nat,
        4,
    ) + " usage="@ + text::hex(interface.usage_page as nat, 4) + ":"@ + text::hex(
        interface.usage as nat,
        4,
    ) + " interface="@ + signed(interface.number) + " bus="@ + interface.bus.spec_name() + " "@ + (
    match interface.product_name {
        Some(name) => name@,
        None => "Spotlight"@,
    })
}

pub fn listing_line(place: usize, interface: &Interface) -> (line: String)
    ensures
        line@ == listing(place as nat, *interface),
{
    let mut line = String::new();
    text::push_decimal(&mut line, place as u64);
    line.append(": ");
    text::push_hex(&mut line, interface.vendor as u64, 4);
    line.append(":");
    text::push_hex(&mut line, interface.product as u64, 4);
    line.append(" usage=");
    text::push_hex(&mut line, interface.usage_page as u64, 4);
    line.append(":");
    text::push_hex(&mut line, interface.usage as u64, 4);
    line.append(" interface=");
    let ghost before = line@;
    if interface.number < 0 {
        line.append("-");
        text::push_decimal(&mut line, (-(interface.number as i64)) as u64);
    } else {
        text::push_decimal(&mut line, interface.number as u64);
    }
    proof {
        reveal_strlit("-");
        assert("-"@ =~= seq!['-']);
        assert(line@ =~= before + signed(interface.number));
    }
    line.append(" bus=");
    line.append(interface.bus.name());
    line.append(" ");
    match &interface.product_name {
        Some(name) => line.append(name.as_str()),
        None => line.append("Spotlight"),
    }
    assert(line@ =~= listing(place as nat, *interface));
    line
}

/// The first byte in which two paths differ decides their order, a path comes before those
/// that it begins, and of equal paths the usage page decides and then the usage.
pub proof fn interfaces_are_listed_by_path(a: Interface, b: Interface, place: int)
    requires
        0 <= place <= a.path@.len(),
        place <= b.path@.len(),
        forall|i: int| 0 <= i < place ==> #[trigger] a.path@[i] == b.path@[i],
    ensures
        place < a.path@.len() && place < b.path@.len() && a.path@[place] < b.path@[place]
            ==> interface_sign(a, b) < 0 && interface_sign(b, a) > 0,
        place == a.path@.len() && place < b.path@.len() ==> interface_sign(a, b) < 0
            && interface_sign(b, a) > 0,
        place == a.path@.len() && place == b.path@.len() ==> {
            &&& a.usage_page < b.usage_page ==> interface_sign(a, b) < 0 && interface_sign(b, a) > 0
            &&& a.usage_page == b.usage_page && a.usage < b.usage ==> interface_sign(a, b) < 0
                && interface_sign(b, a) > 0
            &&& a.usage_page == b.usage_page && a.usage == b.usage ==> interface_sign(a, b) == 0
        },
{
    let (p, q) = (order::values(a.path@), order::values(b.path@));
    assert forall|i: int| 0 <= i < place implies #[trigger] p[i] == q[i] by {
        assert(a.path@[i] == b.path@[i]);
    }
    order::the_first_difference_decides(p, q, place, 0);
    order::the_first_difference_decides(q, p, place, 0);
}

/// Listing goes by that order, and equal interfaces keep theirs.
pub proof fn equal_interfaces_keep_their_order(all: Seq<Interface>, a: int, b: int)
    ensures
        interface_sign(all[a], all[b]) < 0 ==> listed_before(all, a, b),
        interface_sign(all[a], all[b]) > 0 ==> !listed_before(all, a, b),
        interface_sign(all[a], all[b]) == 0 ==> (listed_before(all, a, b) <==> a < b),
{
}

/// The usage pages from ff00 on are the vendors' own, and an interface there can be
/// controlled.
pub proof fn vendor_pages_can_be_controlled(interface: Interface)
    ensures
        controllable(interface) <==> interface.usage_page >= 0xff00,
{
}

/// A negative number is written as the number below zero, with a sign.
pub proof fn numbers_below_zero_have_a_sign(number: i32)
    ensures
        number >= 0 ==> signed(number) == text::decimal(number as nat),
        number < 0 ==> signed(number)[0] == '-' && signed(number).skip(1) == text::decimal(
            (-number) as nat,
        ),
{
    if number < 0 {
        assert(signed(number).skip(1) =~= text::decimal((-number) as nat));
    }
}

} // verus!

//! Picking the dial's device node out of the raw HID devices, by the vendor
//! and product ids in each device's `HID_ID` (`bus:vendor:product`, in hex).

use vstd::prelude::*;
use crate::text::{split_on, split_spec, views};

verus! {

/// The value of hex digit `c`.
pub open spec fn hex_digit(c: char) -> Option<nat> {
    if '0' <= c && c <= '9' {
        Some((c as nat - '0' as nat) as nat)
    } else if 'a' <= c && c <= 'f' {
        Some((c as nat - 'a' as nat + 10) as nat)
    } else if 'A' <= c && c <= 'F' {
        Some((c as nat - 'A' as nat + 10) as nat)
    } else {
        None
    }
}

/// The value of a run of hex digits.
pub open spec fn hex_value(s: Seq<char>) -> nat
    decreases s.len(),
{
    if s.len() == 0 {
        0
    } else {
        hex_value(s.drop_last()) * 16 + match hex_digit(s.last()) {
            Some(d) => d,
            None => 0,
        }
    }
}

/// The hex number that `s` spells, an optional `+` and then digits, where
/// it fits in 32 bits.
pub open spec fn hex_u32(s: Seq<char>) -> Option<u32> {
    let d = if s.len() > 0 && s[0] == '+' { s.drop_first() } else { s };
    if d.len() > 0 && (forall|i: int| 0 <= i < d.len() ==> #[trigger] hex_digit(d[i]).is_some())
        && hex_value(d) < 0x1_0000_0000 {
        Some(hex_value(d) as u32)
    } else {
        None
    }
}

/// Relies on u32::from_str_radix with radix 16: an optional `+`, then hex
/// digits of either case, whose value fits in a `u32`; anything else fails.
#[verifier::external_body]
pub(crate) fn parse_hex(s: &str) -> (r: Option<u32>)
    ensures
        r == hex_u32(s@),
{
    u32::from_str_radix(s, 16).ok()
}

/// A field of an id read as hex, with 0 for one that is not a number.
pub open spec fn hex_or_zero(s: Seq<char>) -> u32 {
    match hex_u32(s) {
        Some(v) => v,
        None => 0,
    }
}

/// Whether `HID_ID` value `id` names vendor `vendor` and product `product`.
pub open spec fn id_matches(id: Seq<char>, vendor: u32, product: u32) -> bool {
    let parts = split_spec(id, ':');
    parts.len() == 3 && hex_or_zero(parts[1]) == vendor && hex_or_zero(parts[2]) == product
}

/// Whether `HID_ID` value `id` names vendor `vendor` and product `product`.
pub fn hid_id_matches(id: &str, vendor: u32, product: u32) -> (r: bool)
    ensures
        r == id_matches(id@, vendor, product),
{
    let parts = split_on(id, ':');
    proof {
        assert(views(parts@).len() == parts@.len());
    }
    if parts.len() != 3 {
        return false;
    }
    proof {
        assert(views(parts@)[1] == parts@[1]@);
        assert(views(parts@)[2] == parts@[2]@);
    }
    let v = match parse_hex(parts[1].as_str()) {
        Some(v) => v,
        None => 0,
    };
    let p = match parse_hex(parts[2].as_str()) {
        Some(p) => p,
        None => 0,
    };
    v == vendor && p == product
}

/// A raw HID device: the `HID_ID` of its HID parent, and its device node.
#[derive(Debug)]
pub struct HidrawDevice {
    pub hid_id: Option<String>,
    pub devnode: Option<String>,
}

/// Whether device `d` is the one with vendor `vendor` and product `product`.
pub open spec fn device_matches(d: HidrawDevice, vendor: u32, product: u32) -> bool {
    match d.hid_id {
        Some(id) => id_matches(id@, vendor, product),
        None => false,
    }
}

/// The position of the first device in `devs` that matches.
pub open spec fn first_match(devs: Seq<HidrawDevice>, vendor: u32, product: u32) -> Option<int>
    decreases devs.len(),
{
    if devs.len() == 0 {
        None
    } else if device_matches(devs[0], vendor, product) {
        Some(0)
    } else {
        match first_match(devs.drop_first(), vendor, product) {
            Some(i) => Some(i + 1),
            None => None,
        }
    }
}

/// The device node of the first device that matches, if it has one.
pub open spec fn found_node(devs: Seq<HidrawDevice>, vendor: u32, product: u32) -> Option<Seq<char>> {
    match first_match(devs, vendor, product) {
        Some(i) => match devs[i].devnode {
            Some(n) => Some(n@),
            None => None,
        },
        None => None,
    }
}

proof fn lemma_first_match_skip(devs: Seq<HidrawDevice>, vendor: u32, product: u32, i: int)
    requires
        0 <= i < devs.len(),
        forall|j: int| 0 <= j < i ==> !device_matches(#[trigger] devs[j], vendor, product),
    ensures
        first_match(devs, vendor, product) == match first_match(devs.subrange(i, devs.len() as int), vendor, product) {
            Some(k) => Some(k + i),
            None => None::<int>,
        },
    decreases i,
{
    if i > 0 {
        assert(!device_matches(devs[0], vendor, product));
        let rest = devs.drop_first();
        assert forall|j: int| 0 <= j < i - 1 implies !device_matches(#[trigger] rest[j], vendor, product) by {
            assert(rest[j] == devs[j + 1]);
        }
        lemma_first_match_skip(rest, vendor, product, i - 1);
        assert(rest.subrange(i - 1, rest.len() as int) =~= devs.subrange(i, devs.len() as int));
    } else {
        assert(devs.subrange(0, devs.len() as int) =~= devs);
    }
}

proof fn lemma_no_match(devs: Seq<HidrawDevice>, vendor: u32, product: u32)
    requires
        forall|j: int| 0 <= j < devs.len() ==> !device_matches(#[trigger] devs[j], vendor, product),
    ensures
        first_match(devs, vendor, product).is_none(),
    decreases devs.len(),
{
    if devs.len() > 0 {
        let rest = devs.drop_first();
        assert forall|j: int| 0 <= j < rest.len() implies !device_matches(#[trigger] rest[j], vendor, product) by {
            assert(rest[j] == devs[j + 1]);
        }
        lemma_no_match(rest, vendor, product);
    }
}

/// The device node of the first device whose `HID_ID` names vendor `d1` and
/// product `d2`; none where no device matches or the first match has no node.
pub fn find_hidraw_device(devices: &Vec<HidrawDevice>, d1: u32, d2: u32) -> (r: Option<String>)
    ensures
        r.is_some() == found_node(devices@, d1, d2).is_some(),
        r.is_some() ==> r.unwrap()@ == found_node(devices@, d1, d2).unwrap(),
{
    let mut i: usize = 0;
    while i < devices.len()
        invariant
            i <= devices@.len(),
            forall|j: int| 0 <= j < i ==> !device_matches(#[trigger] devices@[j], d1, d2),
        decreases devices@.len() - i,
    {
        let dev = &devices[i];
        let hit = match &dev.hid_id {
            Some(id) => hid_id_matches(id.as_str(), d1, d2),
            None => false,
        };
        if hit {
            proof {
                lemma_first_match_skip(devices@, d1, d2, i as int);
                assert(devices@.subrange(i as int, devices@.len() as int)[0] == devices@[i as int]);
            }
            return match &dev.devnode {
                Some(n) => Some(n.clone()),
                None => None,
            };
        }
        i = i + 1;
    }
    proof {
        lemma_no_match(devices@, d1, d2);
    }
    None
}

} // verus!

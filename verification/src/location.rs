//! Where a client connects from, as its user is shown: a local network for private, loopback and
//! unspecified addresses, else what the GeoIP database names, in Chinese when it can.
use vstd::prelude::*;

use crate::text::{join, join_strings, owned, views};

verus! {

/// Where a client is.
#[derive(Debug, Clone, PartialEq, Eq)]
pub struct Location {
    pub country: String,
    pub city: Option<String>,
    pub region: Option<String>,
}

/// A place's names in the two languages shown, when the database has them.
#[derive(Debug, Clone, PartialEq, Eq)]
pub struct PlaceNames {
    pub zh_cn: Option<String>,
    pub en: Option<String>,
}

/// What the GeoIP database holds of a client's city: the names of its country, of its city, and
/// of each of its subdivisions (absent where the database gives no names).
#[derive(Debug, Clone, PartialEq, Eq)]
pub struct CityRecord {
    pub country: Option<PlaceNames>,
    pub city: Option<PlaceNames>,
    pub subdivisions: Option<Vec<Option<PlaceNames>>>,
}

/// An IP address: IPv4 by its 32 bits, IPv6 by its 128.
#[derive(Debug, Clone, Copy, PartialEq, Eq, Structural)]
pub enum IpValue {
    V4(u32),
    V6(u128),
}

/// `Ipv4Addr::is_private`, `is_loopback` or `is_unspecified`: 10.0.0.0/8, 172.16.0.0/12,
/// 192.168.0.0/16, 127.0.0.0/8, or 0.0.0.0.
pub open spec fn special_v4(a: u32) -> bool {
    ||| a / 0x100_0000 == 10
    ||| a / 0x10_0000 == 0xAC1
    ||| a / 0x1_0000 == 0xC0A8
    ||| a / 0x100_0000 == 127
    ||| a == 0
}

/// `Ipv6Addr::is_loopback` or `is_unspecified`: `::1` or `::`.
pub open spec fn special_v6(a: u128) -> bool {
    a == 1 || a == 0
}

/// Whether an address is on a local network (no GeoIP lookup is made for it).
pub open spec fn is_local(a: IpValue) -> bool {
    match a {
        IpValue::V4(v) => special_v4(v),
        IpValue::V6(v) => special_v6(v),
    }
}

pub fn is_local_address(a: IpValue) -> (r: bool)
    ensures
        r == is_local(a),
{
    match a {
        IpValue::V4(v) => v / 0x100_0000 == 10 || v / 0x10_0000 == 0xAC1 || v / 0x1_0000 == 0xC0A8
            || v / 0x100_0000 == 127 || v == 0,
        IpValue::V6(v) => v == 1 || v == 0,
    }
}

/// The name shown for a place: its Chinese name, else its English one.
pub open spec fn shown_name(n: Option<PlaceNames>) -> Option<Seq<char>> {
    match n {
        Some(p) => match p.zh_cn {
            Some(z) => Some(z@),
            None => match p.en {
                Some(e) => Some(e@),
                None => None,
            },
        },
        None => None,
    }
}

/// The shown names of the subdivisions that have one, in order.
pub open spec fn subdivision_names(s: Seq<Option<PlaceNames>>) -> Seq<Seq<char>>
    decreases s.len(),
{
    if s.len() == 0 {
        Seq::empty()
    } else {
        let rest = subdivision_names(s.drop_last());
        match shown_name(s.last()) {
            Some(n) => rest.push(n),
            None => rest,
        }
    }
}

/// The country shown when nothing better is known: abroad.
pub open spec fn abroad() -> Seq<char> {
    "海外"@
}

/// The country shown for a local address.
pub open spec fn local_network() -> Seq<char> {
    "本地网络"@
}

/// A location, as text.
pub open spec fn location_view(l: Location) -> (Seq<char>, Option<Seq<char>>, Option<Seq<char>>) {
    (
        l.country@,
        match l.city {
            Some(c) => Some(c@),
            None => None,
        },
        match l.region {
            Some(r) => Some(r@),
            None => None,
        },
    )
}

/// The location of a looked-up address: from its city record when the lookup found one (its
/// country, else abroad; its city; its subdivisions joined with commas), else abroad.
pub open spec fn location_of_record(rec: Option<CityRecord>) -> (Seq<char>, Option<Seq<char>>, Option<Seq<char>>) {
    match rec {
        None => (abroad(), None, None),
        Some(c) => (
            match shown_name(c.country) {
                Some(n) => n,
                None => abroad(),
            },
            shown_name(c.city),
            match c.subdivisions {
                Some(s) => Some(join(subdivision_names(s@), ","@)),
                None => None,
            },
        ),
    }
}

fn shown_name_of(n: &Option<PlaceNames>) -> (r: Option<String>)
    ensures
        match r {
            Some(s) => shown_name(*n) == Some(s@),
            None => shown_name(*n) is None,
        },
{
    match n {
        Some(p) => match &p.zh_cn {
            Some(z) => Some(z.clone()),
            None => match &p.en {
                Some(e) => Some(e.clone()),
                None => None,
            },
        },
        None => None,
    }
}

fn region_of(subdivisions: &Vec<Option<PlaceNames>>) -> (r: String)
    ensures
        r@ == join(subdivision_names(subdivisions@), ","@),
{
    let mut names: Vec<String> = Vec::new();
    let mut i: usize = 0;
    while i < subdivisions.len()
        invariant
            0 <= i <= subdivisions@.len(),
            views(names@) == subdivision_names(subdivisions@.take(i as int)),
        decreases subdivisions.len() - i,
    {
        proof {
            assert(subdivisions@.take(i + 1).drop_last() =~= subdivisions@.take(i as int));
            assert(subdivisions@.take(i + 1).last() == subdivisions@[i as int]);
        }
        match shown_name_of(&subdivisions[i]) {
            Some(n) => {
                let ghost before = names@;
                names.push(n);
                proof {
                    assert(views(names@) =~= views(before).push(n@));
                }
            },
            None => {},
        }
        i += 1;
    }
    proof {
        assert(subdivisions@.take(i as int) =~= subdivisions@);
    }
    join_strings(&names, ",")
}

/// The location shown for a local address.
pub fn local_location() -> (r: Location)
    ensures
        location_view(r) == (local_network(), None::<Seq<char>>, None::<Seq<char>>),
{
    Location { country: owned("本地网络"), city: None, region: None }
}

/// The location of a looked-up address, given what the lookup found (none when it failed or
/// there is no database).
pub fn location_from_record(record: &Option<CityRecord>) -> (r: Location)
    ensures
        location_view(r) == location_of_record(*record),
{
    match record {
        None => Location { country: owned("海外"), city: None, region: None },
        Some(c) => {
            let country = match shown_name_of(&c.country) {
                Some(n) => n,
                None => owned("海外"),
            };
            let region = match &c.subdivisions {
                Some(s) => Some(region_of(s)),
                None => None,
            };
            Location { country, city: shown_name_of(&c.city), region }
        },
    }
}

/// Where a client at an address is: on a local network, or where its lookup places it.
pub fn client_location(address: IpValue, record: &Option<CityRecord>) -> (r: Location)
    ensures
        location_view(r) == (if is_local(address) {
            (local_network(), None::<Seq<char>>, None::<Seq<char>>)
        } else {
            location_of_record(*record)
        }),
{
    if is_local_address(address) {
        local_location()
    } else {
        location_from_record(record)
    }
}

} // verus!

use vstd::prelude::*;
use vstd::utf8::encode_utf8;

verus! {

/// Details that a USB device reports about itself.
#[derive(Debug, Clone, PartialEq, Eq)]
pub struct UsbInfo {
    pub vid: u16,
    pub pid: u16,
    pub serial_number: Option<String>,
    pub manufacturer: Option<String>,
    pub product: Option<String>,
}

/// The class of an attached device.
#[derive(Debug, Clone, PartialEq, Eq)]
pub enum PortKind {
    Usb(UsbInfo),
    Bluetooth,
    Pci,
    Unknown,
}

/// One device as the host enumerates it.
#[derive(Debug, Clone, PartialEq, Eq)]
pub struct PortListing {
    pub port_name: String,
    pub port_type: PortKind,
}

/// Informational fields of a device, each "Unknown" when not available.
#[derive(Debug, Clone, PartialEq, Eq)]
pub struct PortDescriptor {
    pub kind: String,
    pub vid: String,
    pub pid: String,
    pub serial_number: String,
    pub manufacturer: String,
    pub product: String,
}

pub open spec fn digit_char(d: nat) -> char {
    if d == 0 {
        '0'
    } else if d == 1 {
        '1'
    } else if d == 2 {
        '2'
    } else if d == 3 {
        '3'
    } else if d == 4 {
        '4'
    } else if d == 5 {
        '5'
    } else if d == 6 {
        '6'
    } else if d == 7 {
        '7'
    } else if d == 8 {
        '8'
    } else {
        '9'
    }
}

/// Decimal digits of `n`, most significant first, without leading zeros.
pub open spec fn decimal_text(n: nat) -> Seq<char>
    decreases n,
{
    if n < 10 {
        seq![digit_char(n)]
    } else {
        decimal_text(n / 10).push(digit_char(n % 10))
    }
}

/// Relies on `u16`'s `Display` through `to_string`: plain decimal digits.
#[verifier::external_body]
fn decimal(n: u16) -> (r: String)
    ensures
        r@ == decimal_text(n as nat),
{
    n.to_string()
}

pub open spec fn text_or_unknown(v: Option<String>) -> Seq<char> {
    match v {
        Some(s) => s@,
        None => "Unknown"@,
    }
}

/// `d` holds the fields that describe a device of class `t`.
pub open spec fn describes(d: PortDescriptor, t: PortKind) -> bool {
    match t {
        PortKind::Usb(info) => {
            &&& d.kind@ == "USB"@
            &&& d.vid@ == decimal_text(info.vid as nat)
            &&& d.pid@ == decimal_text(info.pid as nat)
            &&& d.serial_number@ == text_or_unknown(info.serial_number)
            &&& d.manufacturer@ == text_or_unknown(info.manufacturer)
            &&& d.product@ == text_or_unknown(info.product)
        },
        _ => {
            &&& d.kind@ == (match t {
                PortKind::Bluetooth => "Bluetooth"@,
                PortKind::Pci => "PCI"@,
                _ => "Unknown"@,
            })
            &&& d.vid@ == "Unknown"@
            &&& d.pid@ == "Unknown"@
            &&& d.serial_number@ == "Unknown"@
            &&& d.manufacturer@ == "Unknown"@
            &&& d.product@ == "Unknown"@
        },
    }
}

fn unknown() -> (r: String)
    ensures
        r@ == "Unknown"@,
{
    String::from_str("Unknown")
}

fn or_unknown(v: &Option<String>) -> (r: String)
    ensures
        r@ == text_or_unknown(*v),
{
    match v {
        Some(s) => s.clone(),
        None => unknown(),
    }
}

/// The descriptor of a device of class `port`.
pub fn get_port_info(port: &PortKind) -> (r: PortDescriptor)
    ensures
        describes(r, *port),
{
    match port {
        PortKind::Usb(info) => PortDescriptor {
            kind: String::from_str("USB"),
            vid: decimal(info.vid),
            pid: decimal(info.pid),
            serial_number: or_unknown(&info.serial_number),
            manufacturer: or_unknown(&info.manufacturer),
            product: or_unknown(&info.product),
        },
        _ => PortDescriptor {
            kind: match port {
                PortKind::Bluetooth => String::from_str("Bluetooth"),
                PortKind::Pci => String::from_str("PCI"),
                _ => unknown(),
            },
            vid: unknown(),
            pid: unknown(),
            serial_number: unknown(),
            manufacturer: unknown(),
            product: unknown(),
        },
    }
}

/// Strict lexicographic order on byte strings, a proper prefix first.
pub open spec fn bytes_lt(a: Seq<u8>, b: Seq<u8>) -> bool
    decreases a.len(),
{
    if a.len() == 0 {
        b.len() > 0
    } else if b.len() == 0 {
        false
    } else if a[0] != b[0] {
        a[0] < b[0]
    } else {
        bytes_lt(a.drop_first(), b.drop_first())
    }
}

/// Order of identifiers: by their UTF-8 bytes, as `String` compares.
pub open spec fn name_lt(a: Seq<char>, b: Seq<char>) -> bool {
    bytes_lt(encode_utf8(a), encode_utf8(b))
}

proof fn lemma_bytes_lt_asym(a: Seq<u8>, b: Seq<u8>)
    ensures
        bytes_lt(a, b) ==> !bytes_lt(b, a),
    decreases a.len(),
{
    if a.len() > 0 && b.len() > 0 && a[0] == b[0] {
        lemma_bytes_lt_asym(a.drop_first(), b.drop_first());
    }
}

proof fn lemma_bytes_lt_trans(a: Seq<u8>, b: Seq<u8>, c: Seq<u8>)
    requires
        bytes_lt(a, b),
        bytes_lt(b, c),
    ensures
        bytes_lt(a, c),
    decreases a.len(),
{
    if a.len() > 0 && b.len() > 0 && c.len() > 0 && a[0] == b[0] && b[0] == c[0] {
        lemma_bytes_lt_trans(a.drop_first(), b.drop_first(), c.drop_first());
    }
}

fn bytes_less(a: &[u8], b: &[u8]) -> (r: bool)
    ensures
        r == bytes_lt(a@, b@),
{
    let mut i: usize = 0;
    assert(a@.subrange(0, a@.len() as int) =~= a@);
    assert(b@.subrange(0, b@.len() as int) =~= b@);
    while i < a.len() && i < b.len() && a[i] == b[i]
        invariant
            i <= a@.len(),
            i <= b@.len(),
            bytes_lt(a@, b@) == bytes_lt(a@.subrange(i as int, a@.len() as int), b@.subrange(i as int, b@.len() as int)),
        decreases a@.len() - i,
    {
        let ghost sa = a@.subrange(i as int, a@.len() as int);
        let ghost sb = b@.subrange(i as int, b@.len() as int);
        assert(sa.drop_first() =~= a@.subrange(i + 1, a@.len() as int));
        assert(sb.drop_first() =~= b@.subrange(i + 1, b@.len() as int));
        i += 1;
    }
    if i == a.len() {
        i < b.len()
    } else if i == b.len() {
        false
    } else {
        a[i] < b[i]
    }
}

pub open spec fn is_usb(l: PortListing) -> bool {
    l.port_type is Usb
}

/// How many devices of `ls` are USB devices.
pub open spec fn usb_count(ls: Seq<PortListing>) -> nat
    decreases ls.len(),
{
    if ls.len() == 0 {
        0
    } else {
        usb_count(ls.drop_last()) + if is_usb(ls.last()) {
            1nat
        } else {
            0nat
        }
    }
}

/// No later entry comes before an earlier one.
pub open spec fn sorted_by_name(r: Seq<(String, PortDescriptor)>) -> bool {
    forall|i: int, j: int| 0 <= i < j < r.len() ==> !name_lt(#[trigger] r[j].0@, #[trigger] r[i].0@)
}

/// Entry `e` is the one for listing `l`.
pub open spec fn entry_for(e: (String, PortDescriptor), l: PortListing) -> bool {
    e.0@ == l.port_name@ && describes(e.1, l.port_type)
}

/// Every entry of `r` stands for a USB device of `ls`.
pub open spec fn entries_from_usb(r: Seq<(String, PortDescriptor)>, ls: Seq<PortListing>) -> bool {
    forall|k: int| 0 <= k < r.len() ==> exists|j: int| 0 <= j < ls.len() && is_usb(ls[j]) && entry_for(#[trigger] r[k], #[trigger] ls[j])
}

/// Every USB device among the first `n` of `ls` has an entry in `r`.
pub open spec fn usb_listed(r: Seq<(String, PortDescriptor)>, ls: Seq<PortListing>, n: int) -> bool {
    forall|j: int| 0 <= j < n && is_usb(#[trigger] ls[j]) ==> exists|k: int| 0 <= k < r.len() && entry_for(#[trigger] r[k], ls[j])
}

/// The USB devices of an enumeration, each with its descriptor, ordered by
/// identifier. A failed enumeration gives an empty list.
pub fn available_ports(ports: Result<Vec<PortListing>, String>) -> (r: Vec<(String, PortDescriptor)>)
    ensures
        ports is Err ==> r@.len() == 0,
        sorted_by_name(r@),
        match ports {
            Ok(ls) => {
                &&& r@.len() == usb_count(ls@)
                &&& entries_from_usb(r@, ls@)
                &&& usb_listed(r@, ls@, ls@.len() as int)
            },
            Err(_) => true,
        },
{
    let ls = match ports {
        Ok(ls) => ls,
        Err(_) => return Vec::new(),
    };
    let mut out: Vec<(String, PortDescriptor)> = Vec::new();
    let mut i: usize = 0;
    assert(ls@.take(0) =~= Seq::<PortListing>::empty());
    while i < ls.len()
        invariant
            i <= ls@.len(),
            sorted_by_name(out@),
            entries_from_usb(out@, ls@),
            usb_listed(out@, ls@, i as int),
            out@.len() == usb_count(ls@.take(i as int)),
        decreases ls@.len() - i,
    {
        let l = &ls[i];
        if let PortKind::Usb(_) = &l.port_type {
            let name = l.port_name.clone();
            let key = name.as_str().as_bytes();
            let mut p: usize = 0;
            while p < out.len() && !bytes_less(key, out[p].0.as_str().as_bytes())
                invariant
                    p <= out@.len(),
                    key@ == encode_utf8(name@),
                    forall|q: int| 0 <= q < p ==> !name_lt(name@, #[trigger] out@[q].0@),
                decreases out@.len() - p,
            {
                p += 1;
            }
            let entry = (name, get_port_info(&l.port_type));
            let ghost before = out@;
            out.insert(p, entry);
            proof {
                assert(entry_for(entry, ls@[i as int]));
                assert forall|a: int, b: int| 0 <= a < b < out@.len() implies !name_lt(#[trigger] out@[b].0@, #[trigger] out@[a].0@) by {
                    if b < p {
                        assert(out@[a] == before[a] && out@[b] == before[b]);
                    } else if b == p {
                        assert(out@[a] == before[a]);
                    } else if a == p {
                        assert(out@[b] == before[b - 1]);
                        assert(name_lt(entry.0@, before[p as int].0@));
                        if b - 1 > p {
                            assert(!name_lt(before[b - 1].0@, before[p as int].0@));
                        }
                        lemma_bytes_lt_asym(encode_utf8(entry.0@), encode_utf8(before[p as int].0@));
                        if name_lt(before[b - 1].0@, entry.0@) {
                            lemma_bytes_lt_trans(encode_utf8(before[b - 1].0@), encode_utf8(entry.0@), encode_utf8(before[p as int].0@));
                        }
                    } else if a < p {
                        assert(out@[a] == before[a] && out@[b] == before[b - 1]);
                    } else {
                        assert(out@[a] == before[a - 1] && out@[b] == before[b - 1]);
                    }
                }
                assert forall|k: int| 0 <= k < out@.len() implies exists|j: int| 0 <= j < ls@.len() && is_usb(ls@[j]) && entry_for(#[trigger] out@[k], #[trigger] ls@[j]) by {
                    if k < p {
                        assert(out@[k] == before[k]);
                    } else if k == p {
                        assert(is_usb(ls@[i as int]) && entry_for(out@[k], ls@[i as int]));
                    } else {
                        assert(out@[k] == before[k - 1]);
                    }
                }
                assert forall|j: int| 0 <= j < i + 1 && is_usb(#[trigger] ls@[j]) implies exists|k: int| 0 <= k < out@.len() && entry_for(#[trigger] out@[k], ls@[j]) by {
                    if j == i {
                        assert(entry_for(out@[p as int], ls@[j]));
                    } else {
                        let k = choose|k: int| 0 <= k < before.len() && entry_for(#[trigger] before[k], ls@[j]);
                        if k < p {
                            assert(out@[k] == before[k]);
                        } else {
                            assert(out@[k + 1] == before[k]);
                        }
                    }
                }
            }
        }
        assert(ls@.take(i + 1).drop_last() =~= ls@.take(i as int));
        i += 1;
    }
    assert(ls@.take(ls@.len() as int) =~= ls@);
    out
}

} // verus!

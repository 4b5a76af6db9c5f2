//! The two secondary IPv6 addresses of a member, derived from its network's
//! 16-digit identifier and its own 10-digit node identifier.
use vstd::prelude::*;
use vstd::utf8::is_ascii_chars;
use crate::models::{ControllerMember, MemberView};
use crate::text::{hex_digit, hex_digit_char, opt_chars};

verus! {

/// `s` in groups of four characters separated by colons, counted from the
/// end (for a length that is a multiple of four, the usual grouped notation).
pub open spec fn grouped(s: Seq<char>) -> Seq<char>
    decreases s.len(),
{
    if s.len() <= 4 {
        s
    } else {
        grouped(s.take(s.len() - 4)) + ":"@ + s.skip(s.len() - 4)
    }
}

/// The value of a hexadecimal digit of either case.
pub open spec fn hex_value(c: char) -> Option<u8> {
    if '0' <= c && c <= '9' {
        Some((c as u32 - 48) as u8)
    } else if 'a' <= c && c <= 'f' {
        Some((c as u32 - 87) as u8)
    } else if 'A' <= c && c <= 'F' {
        Some((c as u32 - 55) as u8)
    } else {
        None
    }
}

/// Whether every character of `s` is a hexadecimal digit.
pub open spec fn all_hex(s: Seq<char>) -> bool {
    forall|i: int| 0 <= i < s.len() ==> (#[trigger] hex_value(s[i])).is_some()
}

/// Byte `i` of a network identifier read as hexadecimal digit pairs.
pub open spec fn id_byte(nwid: Seq<char>, i: int) -> u8 {
    (hex_value(nwid[2 * i]).unwrap() * 16 + hex_value(nwid[2 * i + 1]).unwrap()) as u8
}

/// Two lower-case hexadecimal digits for a byte.
pub open spec fn hex2(b: u8) -> Seq<char> {
    seq![hex_digit((b / 16) as int), hex_digit((b % 16) as int)]
}

/// The four-byte digest of a network identifier, byte `i` XOR byte `i + 4`,
/// in hexadecimal.
pub open spec fn folded_id_hex(nwid: Seq<char>) -> Seq<char> {
    hex2(id_byte(nwid, 0) ^ id_byte(nwid, 4)) + hex2(id_byte(nwid, 1) ^ id_byte(nwid, 5)) + hex2(
        id_byte(nwid, 2) ^ id_byte(nwid, 6),
    ) + hex2(id_byte(nwid, 3) ^ id_byte(nwid, 7))
}

/// Whether the two identifiers have the lengths the derivations need.
pub open spec fn ids_fit(nwid: Seq<char>, node: Seq<char>) -> bool {
    nwid.len() == 16 && node.len() == 10 && is_ascii_chars(nwid) && is_ascii_chars(node)
}

/// Derivation A: `fd`, the network id, `9993`, the node id, grouped.
pub open spec fn rfc4193_text(nwid: Seq<char>, node: Seq<char>) -> Seq<char> {
    grouped("fd"@ + nwid + "9993"@ + node)
}

/// Derivation B: `fc`, the folded network id, the node id, and
/// `000000000001`, grouped.
pub open spec fn sixplane_text(nwid: Seq<char>, node: Seq<char>) -> Seq<char> {
    grouped("fc"@ + folded_id_hex(nwid) + node + "000000000001"@)
}

/// The node identifier the derivations use: the member's address, else its id.
pub open spec fn node_of(m: MemberView) -> Option<Seq<char>> {
    match m.address {
        Some(a) => Some(a),
        None => m.id,
    }
}

/// What derivation A gives for a member, if it can be computed.
pub open spec fn rfc4193_of(m: MemberView) -> Option<Seq<char>> {
    match (m.nwid, node_of(m)) {
        (Some(n), Some(d)) if ids_fit(n, d) => Some(rfc4193_text(n, d)),
        _ => None,
    }
}

/// What derivation B gives for a member, if it can be computed.
pub open spec fn sixplane_of(m: MemberView) -> Option<Seq<char>> {
    match (m.nwid, node_of(m)) {
        (Some(n), Some(d)) if ids_fit(n, d) && all_hex(n) => Some(sixplane_text(n, d)),
        _ => None,
    }
}

fn hex_value_of(c: char) -> (r: Option<u8>)
    ensures
        r == hex_value(c),
{
    if '0' <= c && c <= '9' {
        Some((c as u32 - 48) as u8)
    } else if 'a' <= c && c <= 'f' {
        Some((c as u32 - 87) as u8)
    } else if 'A' <= c && c <= 'F' {
        Some((c as u32 - 55) as u8)
    } else {
        None
    }
}

proof fn lemma_grouped_step(s: Seq<char>, g: int)
    requires
        1 <= g,
        4 * g + 4 <= s.len(),
    ensures
        grouped(s.take(4 * g + 4)) == grouped(s.take(4 * g)) + ":"@ + s.subrange(4 * g, 4 * g + 4),
{
    let t = s.take(4 * g + 4);
    assert(t.take(t.len() - 4) =~= s.take(4 * g));
    assert(t.skip(t.len() - 4) =~= s.subrange(4 * g, 4 * g + 4));
}

/// The 32 characters of `full` in eight colon-separated groups of four.
fn group_by_four(full: &str) -> (r: String)
    requires
        full@.len() == 32,
    ensures
        r@ == grouped(full@),
{
    let mut out = String::new();
    let mut g: usize = 0;
    while g < 8
        invariant
            full@.len() == 32,
            g <= 8,
            out@ == grouped(full@.take(4 * g as int)),
        decreases 8 - g,
    {
        if g > 0 {
            out.append(":");
            proof {
                lemma_grouped_step(full@, g as int);
            }
        } else {
            assert(full@.take(0).len() == 0);
            assert(full@.take(4) =~= full@.subrange(0, 4));
        }
        out.append(full.substring_char(4 * g, 4 * g + 4));
        g = g + 1;
    }
    assert(full@.take(32) =~= full@);
    out
}

/// The byte at digit pair `i` of `nwid`, if both digits are hexadecimal.
fn id_byte_of(nwid: &str, i: usize) -> (r: Option<u8>)
    requires
        nwid@.len() == 16,
        i < 8,
    ensures
        r == (if hex_value(nwid@[2 * i]).is_some() && hex_value(nwid@[2 * i + 1]).is_some() {
            Some(id_byte(nwid@, i as int))
        } else {
            None
        }),
{
    let hi = hex_value_of(nwid.get_char(2 * i));
    let lo = hex_value_of(nwid.get_char(2 * i + 1));
    match (hi, lo) {
        (Some(h), Some(l)) => Some(h * 16 + l),
        _ => None,
    }
}

impl ControllerMember {
    /// Derivation A, `None` when the identifiers are absent or malformed.
    pub fn rfc4193_address(&self) -> (r: Option<String>)
        ensures
            opt_chars(r) == rfc4193_of(self@),
    {
        let nwid = match &self.nwid {
            Some(n) => n.as_str(),
            None => return None,
        };
        let node = match &self.address {
            Some(a) => a.as_str(),
            None => match &self.id {
                Some(d) => d.as_str(),
                None => return None,
            },
        };
        if nwid.unicode_len() != 16 || node.unicode_len() != 10 || !nwid.is_ascii()
            || !node.is_ascii() {
            return None;
        }
        let mut full = String::from_str("fd");
        full.append(nwid);
        full.append("9993");
        full.append(node);
        proof {
            reveal_strlit("fd");
            reveal_strlit("9993");
        }
        Some(group_by_four(full.as_str()))
    }

    /// Derivation B, `None` when the identifiers are absent or malformed.
    pub fn sixplane_address(&self) -> (r: Option<String>)
        ensures
            opt_chars(r) == sixplane_of(self@),
    {
        let nwid = match &self.nwid {
            Some(n) => n.as_str(),
            None => return None,
        };
        let node = match &self.address {
            Some(a) => a.as_str(),
            None => match &self.id {
                Some(d) => d.as_str(),
                None => return None,
            },
        };
        if nwid.unicode_len() != 16 || node.unicode_len() != 10 || !nwid.is_ascii()
            || !node.is_ascii() {
            return None;
        }
        let mut bytes: Vec<u8> = Vec::new();
        let mut i: usize = 0;
        while i < 8
            invariant
                nwid@.len() == 16,
                self@.nwid == Some(nwid@),
                node_of(self@) == Some(node@),
                i <= 8,
                bytes@.len() == i,
                forall|k: int| 0 <= k < 2 * i ==> (#[trigger] hex_value(nwid@[k])).is_some(),
                forall|k: int| 0 <= k < i ==> bytes@[k] == id_byte(nwid@, k),
            decreases 8 - i,
        {
            match id_byte_of(nwid, i) {
                Some(b) => bytes.push(b),
                None => {
                    assert(hex_value(nwid@[2 * i as int]).is_none() || hex_value(
                        nwid@[2 * i + 1],
                    ).is_none());
                    assert(!all_hex(nwid@));
                    return None;
                },
            }
            i = i + 1;
        }
        let mut full = String::from_str("fc");
        let mut j: usize = 0;
        while j < 4
            invariant
                j <= 4,
                bytes@.len() == 8,
                full@ == "fc"@ + Seq::new(2 * j as nat, |k: int| {
                    let d = bytes@[k / 2] ^ bytes@[k / 2 + 4];
                    if k % 2 == 0 { hex_digit((d / 16) as int) } else { hex_digit((d % 16) as int) }
                }),
            decreases 4 - j,
        {
            let d = bytes[j] ^ bytes[j + 4];
            crate::text::push_char(&mut full, hex_digit_char(d / 16));
            crate::text::push_char(&mut full, hex_digit_char(d % 16));
            j = j + 1;
        }
        proof {
            reveal_strlit("fc");
            reveal_strlit("000000000001");
            assert(all_hex(nwid@));
            let ghost f = Seq::new(8, |k: int| {
                let d = bytes@[k / 2] ^ bytes@[k / 2 + 4];
                if k % 2 == 0 { hex_digit((d / 16) as int) } else { hex_digit((d % 16) as int) }
            });
            assert(f =~= folded_id_hex(nwid@));
        }
        full.append(node);
        full.append("000000000001");
        Some(group_by_four(full.as_str()))
    }
}

} // verus!

//! Renderings of binary columns that hold addresses: a MAC address, or an IP
//! address in which two leading `0xFF` bytes mark the four-byte form.
use vstd::prelude::*;
use crate::text::{
    decimal, lowercased, numeral, numeral_chars, padded_numeral, push_char, push_chars,
    push_decimal, push_padded_numeral, same_text, to_lowercase,
};

verus! {

/// How the bytes of a binary column are to be read.
#[derive(Debug, Clone, Copy, PartialEq, Eq, Structural)]
pub enum ColumnConversion {
    IpAddress,
    MacAddress,
}

/// The conversion that a lower-case name stands for.
pub open spec fn conversion_named(name: Seq<char>) -> Option<ColumnConversion> {
    if name == "ipaddress"@ {
        Some(ColumnConversion::IpAddress)
    } else if name == "macaddress"@ {
        Some(ColumnConversion::MacAddress)
    } else {
        None
    }
}

/// The message that rejects a conversion name.
pub open spec fn invalid_conversion(name: Seq<char>) -> Seq<char> {
    "invalid conversion: "@ + name
}

/// The number whose big-endian bytes are `bytes`.
pub open spec fn be_value(bytes: Seq<u8>) -> nat
    decreases bytes.len(),
{
    if bytes.len() == 0 {
        0
    } else {
        256 * be_value(bytes.drop_last()) + bytes.last() as nat
    }
}

/// The four decimal fields of a 32-bit address, most significant first.
pub open spec fn dotted_quad(v: nat) -> Seq<char> {
    decimal(v / 0x100_0000 % 256) + seq!['.'] + decimal(v / 0x1_0000 % 256) + seq!['.'] + decimal(
        v / 0x100 % 256,
    ) + seq!['.'] + decimal(v % 256)
}

/// The four-byte form: the bytes after the marker, read as one big-endian
/// number. Nothing is printed where there is no byte or the number does not
/// fit in 32 bits.
pub open spec fn ipv4_text(rest: Seq<u8>) -> Seq<char> {
    if rest.len() == 0 || be_value(rest) > 0xFFFF_FFFF {
        Seq::empty()
    } else {
        dotted_quad(be_value(rest))
    }
}

/// The first sixteen bytes, with zeros for those that are missing.
pub open spec fn sixteen(bytes: Seq<u8>) -> Seq<u8> {
    Seq::new(
        16,
        |i: int|
            if i < bytes.len() {
                bytes[i]
            } else {
                0u8
            },
    )
}

/// The eight 16-bit groups of sixteen bytes, each big-endian.
pub open spec fn groups_of(bytes: Seq<u8>) -> Seq<u16> {
    Seq::new(8, |k: int| (bytes[2 * k] as int * 256 + bytes[2 * k + 1] as int) as u16)
}

/// Lower-case hexadecimal groups without leading zeros, joined by colons.
pub open spec fn groups_text(groups: Seq<u16>) -> Seq<char>
    decreases groups.len(),
{
    if groups.len() == 0 {
        Seq::empty()
    } else if groups.len() == 1 {
        numeral(groups[0] as nat, 16, false)
    } else {
        groups_text(groups.drop_last()) + seq![':'] + numeral(groups.last() as nat, 16, false)
    }
}

/// How many zero groups follow one another from position `i` on.
pub open spec fn zero_run(groups: Seq<u16>, i: int) -> nat
    decreases groups.len() - i,
{
    if 0 <= i < groups.len() && groups[i] == 0 {
        1 + zero_run(groups, i + 1)
    } else {
        0
    }
}

/// The leftmost position, from `i` on, at which the run of zero groups is
/// longest (the length of `groups` where `i` is past the end).
pub open spec fn longest_run_start(groups: Seq<u16>, i: int) -> int
    decreases groups.len() - i,
{
    if i < 0 || i >= groups.len() {
        groups.len() as int
    } else {
        let later = longest_run_start(groups, i + 1);
        if zero_run(groups, i) >= zero_run(groups, later) {
            i
        } else {
            later
        }
    }
}

/// Whether sixteen bytes hold a four-byte address mapped into the long form:
/// ten zero bytes, then two `0xFF` bytes.
pub open spec fn is_mapped(bytes: Seq<u8>) -> bool {
    &&& forall|i: int| 0 <= i < 10 ==> bytes[i] == 0
    &&& bytes[10] == 0xFF
    &&& bytes[11] == 0xFF
}

/// The text of a sixteen-byte address: a mapped four-byte address after
/// `::ffff:`; else eight groups, the leftmost longest run of two or more zero
/// groups written as `::`.
pub open spec fn ipv6_text(bytes: Seq<u8>) -> Seq<char> {
    if is_mapped(bytes) {
        "::ffff:"@ + dotted_quad(be_value(bytes.subrange(12, 16)))
    } else {
        let groups = groups_of(bytes);
        let start = longest_run_start(groups, 0);
        let run = zero_run(groups, start);
        if run > 1 {
            groups_text(groups.take(start)) + seq![':', ':'] + groups_text(
                groups.skip(start + run),
            )
        } else {
            groups_text(groups)
        }
    }
}

/// The text of an IP address column.
pub open spec fn ip_text(bytes: Seq<u8>) -> Seq<char> {
    if bytes.len() >= 2 && bytes[0] == 0xFF && bytes[1] == 0xFF {
        ipv4_text(bytes.skip(2))
    } else {
        ipv6_text(sixteen(bytes))
    }
}

/// Two upper-case hexadecimal digits for each byte, joined by colons.
pub open spec fn mac_text(bytes: Seq<u8>) -> Seq<char>
    decreases bytes.len(),
{
    if bytes.len() == 0 {
        Seq::empty()
    } else if bytes.len() == 1 {
        padded_numeral(bytes[0] as nat, 16, true, 2)
    } else {
        mac_text(bytes.drop_last()) + seq![':'] + padded_numeral(bytes.last() as nat, 16, true, 2)
    }
}

/// What a conversion makes of the bytes of a column.
pub open spec fn converted_text(conversion: ColumnConversion, bytes: Seq<u8>) -> Seq<char> {
    match conversion {
        ColumnConversion::IpAddress => ip_text(bytes),
        ColumnConversion::MacAddress => mac_text(bytes),
    }
}

/// Appends the four decimal fields of a 32-bit address.
pub fn push_dotted_quad(out: &mut String, v: u32)
    ensures
        final(out)@ == old(out)@ + dotted_quad(v as nat),
{
    let a: u64 = (v / 0x100_0000) as u64 % 256;
    let b: u64 = (v / 0x1_0000) as u64 % 256;
    let c: u64 = (v / 0x100) as u64 % 256;
    let d: u64 = v as u64 % 256;
    push_decimal(out, a);
    push_char(out, '.');
    push_decimal(out, b);
    push_char(out, '.');
    push_decimal(out, c);
    push_char(out, '.');
    push_decimal(out, d);
}

/// The big-endian number of `bytes[from..]`, or `None` where it does not fit
/// in 32 bits.
pub(crate) fn be_u32(bytes: &Vec<u8>, from: usize) -> (r: Option<u32>)
    requires
        from <= bytes@.len(),
    ensures
        match r {
            Some(v) => v == be_value(bytes@.skip(from as int)),
            None => be_value(bytes@.skip(from as int)) > 0xFFFF_FFFF,
        },
{
    let ghost rest = bytes@.skip(from as int);
    let mut acc: u64 = 0;
    let mut fits: bool = true;
    let mut i: usize = from;
    while i < bytes.len()
        invariant
            from <= i <= bytes@.len(),
            rest == bytes@.skip(from as int),
            fits ==> acc == be_value(rest.take(i - from)) && acc <= 0xFFFF_FFFF,
            !fits ==> be_value(rest.take(i - from)) > 0xFFFF_FFFF,
        decreases bytes.len() - i,
    {
        proof {
            let next = rest.take(i - from + 1);
            assert(next.drop_last() =~= rest.take(i - from));
        }
        if fits {
            acc = acc * 256 + bytes[i] as u64;
            if acc > 0xFFFF_FFFF {
                fits = false;
            }
        }
        i = i + 1;
    }
    proof {
        assert(rest.take(i - from) =~= rest);
    }
    if fits {
        Some(acc as u32)
    } else {
        None
    }
}

/// Appends lower-case hexadecimal groups, joined by colons.
pub(crate) fn push_groups(out: &mut String, groups: &Vec<u16>, from: usize, to: usize)
    requires
        from <= to <= groups@.len(),
    ensures
        final(out)@ == old(out)@ + groups_text(groups@.subrange(from as int, to as int)),
{
    let mut i: usize = from;
    while i < to
        invariant
            from <= i <= to <= groups@.len(),
            out@ == old(out)@ + groups_text(groups@.subrange(from as int, i as int)),
        decreases to - i,
    {
        if i > from {
            push_char(out, ':');
        }
        let digits = numeral_chars(groups[i] as u64, 16, false);
        push_chars(out, &digits);
        proof {
            let next = groups@.subrange(from as int, i + 1);
            assert(next.drop_last() =~= groups@.subrange(from as int, i as int));
        }
        i = i + 1;
    }
}

/// The text of a sixteen-byte address.
pub(crate) fn ipv6_string(bytes: &Vec<u8>) -> (out: String)
    requires
        bytes@.len() == 16,
    ensures
        out@ == ipv6_text(bytes@),
{
    let mut out = String::new();
    let mut mapped: bool = bytes[10] == 0xFF && bytes[11] == 0xFF;
    let mut j: usize = 0;
    while j < 10
        invariant
            j <= 10,
            bytes@.len() == 16,
            mapped == (bytes@[10] == 0xFF && bytes@[11] == 0xFF && forall|i: int|
                0 <= i < j ==> bytes@[i] == 0),
        decreases 10 - j,
    {
        if bytes[j] != 0 {
            mapped = false;
        }
        j = j + 1;
    }
    if mapped {
        out.append("::ffff:");
        let low = be_u32(bytes, 12);
        proof {
            lemma_be_value_bound(bytes@.subrange(12, 16));
        }
        match low {
            Some(v) => {
                push_dotted_quad(&mut out, v);
            },
            None => {},
        }
        return out;
    }
    let mut groups: Vec<u16> = Vec::new();
    let mut k: usize = 0;
    while k < 8
        invariant
            k <= 8,
            bytes@.len() == 16,
            groups@ =~= groups_of(bytes@).take(k as int),
        decreases 8 - k,
    {
        let group: u16 = bytes[2 * k] as u16 * 256 + bytes[2 * k + 1] as u16;
        groups.push(group);
        k = k + 1;
    }
    assert(groups@ =~= groups_of(bytes@));
    // Scan from the right: the run that starts at `i`, and the leftmost
    // longest run from `i` on.
    let mut i: usize = 8;
    let mut run: usize = 0;
    let mut best: usize = 8;
    let mut best_run: usize = 0;
    while i > 0
        invariant
            i <= 8,
            groups@.len() == 8,
            run == zero_run(groups@, i as int),
            best == longest_run_start(groups@, i as int),
            best_run == zero_run(groups@, best as int),
            run <= 8 - i,
            i <= best <= 8,
            best_run <= 8 - best,
        decreases i,
    {
        i = i - 1;
        if groups[i] == 0 {
            run = run + 1;
        } else {
            run = 0;
        }
        if run >= best_run {
            best = i;
            best_run = run;
        }
    }
    if best_run > 1 {
        push_groups(&mut out, &groups, 0, best);
        out.append("::");
        push_groups(&mut out, &groups, best + best_run, 8);
        proof {
            reveal_strlit("::");
        }
    } else {
        push_groups(&mut out, &groups, 0, 8);
    }
    out
}

/// A run of `n` bytes stands for a big-endian number below `256^n`; four
/// bytes fit in 32 bits.
pub proof fn lemma_be_value_bound(bytes: Seq<u8>)
    requires
        bytes.len() <= 4,
    ensures
        be_value(bytes) <= 0xFFFF_FFFF,
{
    reveal_with_fuel(be_value, 6);
}

impl ColumnConversion {
    /// The conversion that `string` names, whatever its case; the message
    /// `invalid conversion: ` and the name where it names none.
    pub fn from_string(string: &str) -> (r: Result<ColumnConversion, String>)
        ensures
            match conversion_named(lowercased(string@)) {
                Some(conversion) => r == Ok::<ColumnConversion, String>(conversion),
                None => r is Err && r->Err_0@ == invalid_conversion(string@),
            },
    {
        let lower = to_lowercase(string);
        match Self::from_lowercase(lower.as_str()) {
            Some(conversion) => Ok(conversion),
            None => {
                let mut message = String::new();
                message.append("invalid conversion: ");
                message.append(string);
                Err(message)
            },
        }
    }

    /// The conversion that a lower-case name stands for.
    pub fn from_lowercase(name: &str) -> (r: Option<ColumnConversion>)
        ensures
            r == conversion_named(name@),
    {
        if same_text(name, "ipaddress") {
            Some(ColumnConversion::IpAddress)
        } else if same_text(name, "macaddress") {
            Some(ColumnConversion::MacAddress)
        } else {
            None
        }
    }

    /// The text that this conversion makes of `bytes`.
    pub fn convert(&self, bytes: Vec<u8>) -> (r: String)
        ensures
            r@ == converted_text(*self, bytes@),
    {
        match self {
            ColumnConversion::IpAddress => {
                if bytes.len() >= 2 && bytes[0] == 0xFF && bytes[1] == 0xFF {
                    let mut out = String::new();
                    if bytes.len() > 2 {
                        match be_u32(&bytes, 2) {
                            Some(v) => {
                                push_dotted_quad(&mut out, v);
                            },
                            None => {},
                        }
                    } else {
                    }
                    out
                } else {
                    let mut padded: Vec<u8> = Vec::new();
                    let mut i: usize = 0;
                    while i < 16
                        invariant
                            i <= 16,
                            padded@ =~= sixteen(bytes@).take(i as int),
                        decreases 16 - i,
                    {
                        if i < bytes.len() {
                            padded.push(bytes[i]);
                        } else {
                            padded.push(0);
                        }
                        i = i + 1;
                    }
                    assert(padded@ =~= sixteen(bytes@));
                    ipv6_string(&padded)
                }
            },
            ColumnConversion::MacAddress => {
                let mut out = String::new();
                let mut i: usize = 0;
                while i < bytes.len()
                    invariant
                        i <= bytes@.len(),
                        out@ == mac_text(bytes@.take(i as int)),
                    decreases bytes.len() - i,
                {
                    if i > 0 {
                        push_char(&mut out, ':');
                    }
                    push_padded_numeral(&mut out, bytes[i] as u64, 16, true, 2);
                    proof {
                        let next = bytes@.take(i + 1);
                        assert(next.drop_last() =~= bytes@.take(i as int));
                    }
                    i = i + 1;
                }
                assert(bytes@.take(bytes@.len() as int) =~= bytes@);
                out
            },
        }
    }
}

} // verus!

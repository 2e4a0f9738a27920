//! Parsing of the command-line values: the MAC address and the child product id.

use vstd::prelude::*;
use vstd::string::StringSliceAdditionalSpecFns;

verus! {

/// The value of an ASCII digit in base `radix` (at most 36): `0-9`, then
/// letters of either case from 10 on.
pub open spec fn digit_value(c: u8, radix: nat) -> Option<nat> {
    let v: int = if 48 <= c <= 57 {
        c - 48
    } else if 97 <= c <= 122 {
        c - 97 + 10
    } else if 65 <= c <= 90 {
        c - 65 + 10
    } else {
        99
    };
    if v < radix {
        Some(v as nat)
    } else {
        None
    }
}

/// The number that a string of digits writes in base `radix`; the empty string is 0.
pub open spec fn digits_value(s: Seq<u8>, radix: nat) -> Option<nat>
    decreases s.len(),
{
    if s.len() == 0 {
        Some(0)
    } else {
        match (digits_value(s.drop_last(), radix), digit_value(s.last(), radix)) {
            (Some(a), Some(d)) => Some(a * radix + d),
            _ => None,
        }
    }
}

/// What `from_str_radix` gives for an unsigned type whose largest value is
/// `max`: an optional `+` followed by at least one digit, of value at most `max`.
pub open spec fn spec_from_str_radix(s: Seq<u8>, radix: nat, max: nat) -> Option<nat> {
    if s.len() == 0 {
        None
    } else {
        let d = if s[0] == 0x2b {
            s.drop_first()
        } else {
            s
        };
        if d.len() == 0 {
            None
        } else {
            match digits_value(d, radix) {
                Some(v) => if v <= max {
                    Some(v)
                } else {
                    None
                },
                None => None,
            }
        }
    }
}

/// The value of a valid string of digits is at least that of each prefix.
proof fn lemma_digits_monotone(s: Seq<u8>, radix: nat, i: int)
    requires
        radix >= 1,
        0 <= i <= s.len(),
        digits_value(s, radix) is Some,
    ensures
        digits_value(s.take(i), radix) is Some,
        digits_value(s.take(i), radix)->0 <= digits_value(s, radix)->0,
    decreases s.len(),
{
    if i < s.len() {
        assert(s.drop_last().take(i) =~= s.take(i));
        lemma_digits_monotone(s.drop_last(), radix, i);
        let a = digits_value(s.drop_last(), radix)->0;
        let d = digit_value(s.last(), radix)->0;
        assert(a <= a * radix + d) by (nonlinear_arith)
            requires
                radix >= 1,
        ;
    } else {
        assert(s.take(i) =~= s);
    }
}

/// The value of an ASCII digit in base `radix` (at most 36).
fn digit_of(c: u8, radix: u32) -> (r: Option<u64>)
    requires
        radix <= 36,
    ensures
        match r {
            Some(v) => digit_value(c, radix as nat) == Some(v as nat) && v < radix,
            None => digit_value(c, radix as nat) is None,
        },
{
    let v: u64 = if 48 <= c && c <= 57 {
        (c - 48) as u64
    } else if 97 <= c && c <= 122 {
        (c - 97 + 10) as u64
    } else if 65 <= c && c <= 90 {
        (c - 65 + 10) as u64
    } else {
        99
    };
    if v < radix as u64 {
        Some(v)
    } else {
        None
    }
}

/// `from_str_radix` for an unsigned type whose largest value is `max`.
pub fn parse_radix(s: &[u8], radix: u32, max: u32) -> (r: Option<u32>)
    requires
        2 <= radix <= 36,
    ensures
        match r {
            Some(v) => spec_from_str_radix(s@, radix as nat, max as nat) == Some(v as nat),
            None => spec_from_str_radix(s@, radix as nat, max as nat) is None,
        },
{
    if s.len() == 0 {
        return None;
    }
    let start: usize = if s[0] == 0x2b {
        1
    } else {
        0
    };
    let ghost d = if s@[0] == 0x2b {
        s@.drop_first()
    } else {
        s@
    };
    assert(d =~= s@.skip(start as int));
    if s.len() - start == 0 {
        return None;
    }
    let mut acc: u64 = 0;
    let mut i: usize = start;
    assert(d.take(0) =~= Seq::<u8>::empty());
    while i < s.len()
        invariant
            start <= i <= s@.len(),
            2 <= radix <= 36,
            s@.len() > 0,
            d.len() > 0,
            d == s@.skip(start as int),
            d == if s@[0] == 0x2b {
                s@.drop_first()
            } else {
                s@
            },
            acc <= max,
            digits_value(d.take(i - start), radix as nat) == Some(acc as nat),
        decreases s.len() - i,
    {
        let ghost k = i - start;
        assert(d.take(k + 1).drop_last() =~= d.take(k));
        assert(d.take(k + 1).last() == s@[i as int]);
        match digit_of(s[i], radix) {
            Some(v) => {
                assert(acc * (radix as u64) + v <= 0xffff_ffffu64 * 36 + 36) by (nonlinear_arith)
                    requires
                        acc <= 0xffff_ffffu64,
                        radix <= 36,
                        v < 36,
                ;
                let next = acc * (radix as u64) + v;
                if next > max as u64 {
                    proof {
                        assert(digits_value(d.take(k + 1), radix as nat) == Some(next as nat));
                        if digits_value(d, radix as nat) is Some {
                            lemma_digits_monotone(d, radix as nat, k + 1);
                            assert(digits_value(d, radix as nat)->0 > max);
                        }
                        assert(d.len() > 0);
                        assert(s@.len() > 0);
                        assert(spec_from_str_radix(s@, radix as nat, max as nat) is None);
                    }
                    return None;
                }
                acc = next;
            },
            None => {
                proof {
                    assert(digits_value(d.take(k + 1), radix as nat) is None);
                    if digits_value(d, radix as nat) is Some {
                        lemma_digits_monotone(d, radix as nat, k + 1);
                    }
                    assert(spec_from_str_radix(s@, radix as nat, max as nat) is None);
                }
                return None;
            },
        }
        i = i + 1;
    }
    assert(d.take(i - start) =~= d);
    Some(acc as u32)
}

/// The fields of `s` between the separators `sep`.
pub open spec fn spec_split(s: Seq<u8>, sep: u8) -> Seq<Seq<u8>>
    decreases s.len(),
{
    if s.len() == 0 {
        seq![Seq::<u8>::empty()]
    } else {
        let p = spec_split(s.drop_last(), sep);
        if s.last() == sep {
            p.push(Seq::<u8>::empty())
        } else {
            p.update(p.len() - 1, p.last().push(s.last()))
        }
    }
}

/// Splitting gives at least one field.
proof fn lemma_split_nonempty(s: Seq<u8>, sep: u8)
    ensures
        spec_split(s, sep).len() >= 1,
    decreases s.len(),
{
    if s.len() > 0 {
        lemma_split_nonempty(s.drop_last(), sep);
    }
}

/// Range `k` of `r` spans field `k` of `s` split at `sep`.
pub open spec fn is_field_range(r: Seq<(usize, usize)>, s: Seq<u8>, sep: u8, k: int) -> bool {
    r[k].0 <= r[k].1 <= s.len() && spec_split(s, sep)[k] == s.subrange(r[k].0 as int, r[k].1 as int)
}

/// The byte ranges of the fields of `s` between the separators `sep`.
fn split_ranges(s: &[u8], sep: u8) -> (r: Vec<(usize, usize)>)
    ensures
        r@.len() == spec_split(s@, sep).len(),
        forall|k: int| 0 <= k < r@.len() ==> #[trigger] is_field_range(r@, s@, sep, k),
{
    let mut done: Vec<(usize, usize)> = Vec::new();
    let mut start: usize = 0;
    let mut i: usize = 0;
    assert(s@.take(0) =~= Seq::<u8>::empty());
    while i < s.len()
        invariant
            start <= i <= s@.len(),
            spec_split(s@.take(i as int), sep).len() == done@.len() + 1,
            forall|k: int| 0 <= k < done@.len() ==> #[trigger] done@[k].0 <= done@[k].1 && done@[k].1 < start,
            forall|k: int|
                0 <= k < done@.len() ==> #[trigger] spec_split(s@.take(i as int), sep)[k]
                    == s@.subrange(done@[k].0 as int, done@[k].1 as int),
            spec_split(s@.take(i as int), sep).last() == s@.subrange(start as int, i as int),
        decreases s.len() - i,
    {
        assert(s@.take(i + 1).drop_last() =~= s@.take(i as int));
        assert(s@.take(i + 1).last() == s@[i as int]);
        let ghost old_done = done@;
        proof {
            lemma_split_nonempty(s@.take(i as int), sep);
        }
        if s[i] == sep {
            done.push((start, i));
            assert(spec_split(s@.take(i + 1), sep) == spec_split(s@.take(i as int), sep).push(
                Seq::<u8>::empty(),
            ));
            assert forall|k: int| 0 <= k < done@.len() implies #[trigger] spec_split(
                s@.take(i + 1),
                sep,
            )[k] == s@.subrange(done@[k].0 as int, done@[k].1 as int) by {
                if k < old_done.len() {
                    assert(spec_split(s@.take(i as int), sep)[k] == s@.subrange(
                        old_done[k].0 as int,
                        old_done[k].1 as int,
                    ));
                }
            }
            start = i + 1;
            assert forall|k: int| 0 <= k < done@.len() implies #[trigger] done@[k].0 <= done@[k].1
                && done@[k].1 < start by {
                if k < old_done.len() {
                    assert(old_done[k] == done@[k]);
                    assert(old_done[k].0 <= old_done[k].1 && old_done[k].1 < i);
                }
            }
            assert(s@.subrange(start as int, i + 1) =~= Seq::<u8>::empty());
        } else {
            let ghost p = spec_split(s@.take(i as int), sep);
            assert(spec_split(s@.take(i + 1), sep) == p.update(
                p.len() - 1,
                p.last().push(s@[i as int]),
            ));
            assert forall|k: int| 0 <= k < done@.len() implies #[trigger] spec_split(
                s@.take(i + 1),
                sep,
            )[k] == s@.subrange(done@[k].0 as int, done@[k].1 as int) by {
                assert(spec_split(s@.take(i as int), sep)[k] == s@.subrange(
                    old_done[k].0 as int,
                    old_done[k].1 as int,
                ));
            }
            assert(s@.subrange(start as int, i + 1) =~= s@.subrange(start as int, i as int).push(
                s@[i as int],
            ));
        }
        i = i + 1;
    }
    assert(s@.take(i as int) =~= s@);
    let ghost old_done = done@;
    done.push((start, i));
    assert forall|k: int| 0 <= k < done@.len() implies #[trigger] is_field_range(done@, s@, sep, k) by {
        assert(done@[k].0 <= done@[k].1 <= s@.len());
        if k < old_done.len() {
            assert(spec_split(s@.take(i as int), sep)[k] == s@.subrange(
                old_done[k].0 as int,
                old_done[k].1 as int,
            ));
        }
    }
    done
}

/// The six bytes a MAC address string writes: six fields separated by `:`,
/// each a base-16 number of at most 255 (an optional `+`, then hex digits).
pub open spec fn spec_parse_mac(s: Seq<u8>) -> Option<Seq<u8>> {
    let parts = spec_split(s, 0x3a);
    if parts.len() == 6 && forall|k: int|
        0 <= k < 6 ==> #[trigger] spec_from_str_radix(parts[k], 16, 255) is Some {
        Some(Seq::new(6, |k: int| spec_from_str_radix(parts[k], 16, 255)->0 as u8))
    } else {
        None
    }
}

/// Parse a MAC address written `aa:bb:cc:dd:ee:ff`.
pub fn parse_mac(mac_str: &str) -> (r: Option<[u8; 6]>)
    ensures
        match r {
            Some(m) => spec_parse_mac(mac_str.spec_bytes()) == Some(m@),
            None => spec_parse_mac(mac_str.spec_bytes()) is None,
        },
{
    let bytes = mac_str.as_bytes();
    let parts = split_ranges(bytes, 0x3a);
    if parts.len() != 6 {
        return None;
    }
    let mut mac = [0u8; 6];
    let mut i: usize = 0;
    while i < 6
        invariant
            i <= 6,
            bytes@ == mac_str.spec_bytes(),
            parts@.len() == 6,
            spec_split(bytes@, 0x3a).len() == 6,
            forall|k: int| 0 <= k < 6 ==> #[trigger] is_field_range(parts@, bytes@, 0x3a, k),
            forall|k: int|
                0 <= k < i ==> #[trigger] spec_from_str_radix(spec_split(bytes@, 0x3a)[k], 16, 255)
                    is Some && mac@[k] == spec_from_str_radix(spec_split(bytes@, 0x3a)[k], 16, 255)->0 as u8,
        decreases 6 - i,
    {
        let (a, b) = parts[i];
        assert(is_field_range(parts@, bytes@, 0x3a, i as int));
        let part = &bytes[a..b];
        match parse_radix(part, 16, 255) {
            Some(v) => {
                mac[i] = v as u8;
            },
            None => {
                assert(part@ == spec_split(mac_str.spec_bytes(), 0x3a)[i as int]);
                assert(spec_from_str_radix(spec_split(mac_str.spec_bytes(), 0x3a)[i as int], 16, 255)
                    is None);
                return None;
            },
        }
        i = i + 1;
    }
    assert(mac@ =~= Seq::new(
        6,
        |k: int| spec_from_str_radix(spec_split(bytes@, 0x3a)[k], 16, 255)->0 as u8,
    ));
    Some(mac)
}

/// The product id a `--child-pid` value writes: hexadecimal after `0x`, else decimal.
pub open spec fn spec_parse_pid(s: Seq<u8>) -> Option<nat> {
    if s.len() >= 2 && s[0] == 0x30 && s[1] == 0x78 {
        spec_from_str_radix(s.skip(2), 16, 0xffff)
    } else {
        spec_from_str_radix(s, 10, 0xffff)
    }
}

/// Parse a product id, hexadecimal when written with `0x`, else decimal.
pub fn parse_pid(pid_str: &str) -> (r: Option<u16>)
    ensures
        match r {
            Some(v) => spec_parse_pid(pid_str.spec_bytes()) == Some(v as nat),
            None => spec_parse_pid(pid_str.spec_bytes()) is None,
        },
{
    let bytes = pid_str.as_bytes();
    let r = if bytes.len() >= 2 && bytes[0] == 0x30 && bytes[1] == 0x78 {
        parse_radix(&bytes[2..bytes.len()], 16, 0xffff)
    } else {
        parse_radix(bytes, 10, 0xffff)
    };
    match r {
        Some(v) => Some(v as u16),
        None => None,
    }
}

} // verus!

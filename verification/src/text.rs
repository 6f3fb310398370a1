//! Text form of the values the resolver hands out: dotted-decimal IPv4,
//! colon-separated lowercase-hex IPv6 with the longest zero run
//! compressed to `::`, and whitespace trimming for HTTPS bodies.

use vstd::prelude::*;
use vstd::string::StringExecFns;

use crate::addr::IpAddress;
use crate::decode::be16;

verus! {

/// The character for one digit value, decimal or lowercase hex.
pub open spec fn hex_digit(d: int) -> char {
    if d == 0 {
        '0'
    } else if d == 1 {
        '1'
    } else if d == 2 {
        '2'
    } else if d == 3 {
        '3'
    } else if d == 4 {
        '4'
    } else if d == 5 {
        '5'
    } else if d == 6 {
        '6'
    } else if d == 7 {
        '7'
    } else if d == 8 {
        '8'
    } else if d == 9 {
        '9'
    } else if d == 10 {
        'a'
    } else if d == 11 {
        'b'
    } else if d == 12 {
        'c'
    } else if d == 13 {
        'd'
    } else if d == 14 {
        'e'
    } else {
        'f'
    }
}

/// Decimal text of one byte value, without leading zeros.
pub open spec fn dec_text(n: int) -> Seq<char>
    recommends
        0 <= n < 256,
{
    if n < 10 {
        seq![hex_digit(n)]
    } else if n < 100 {
        seq![hex_digit(n / 10), hex_digit(n % 10)]
    } else {
        seq![hex_digit(n / 100), hex_digit((n / 10) % 10), hex_digit(n % 10)]
    }
}

/// Lowercase hex text of one 16-bit group, without leading zeros.
pub open spec fn hex_text(g: int) -> Seq<char>
    recommends
        0 <= g < 65536,
{
    if g < 16 {
        seq![hex_digit(g)]
    } else if g < 256 {
        seq![hex_digit(g / 16), hex_digit(g % 16)]
    } else if g < 4096 {
        seq![hex_digit(g / 256), hex_digit((g / 16) % 16), hex_digit(g % 16)]
    } else {
        seq![
            hex_digit(g / 4096),
            hex_digit((g / 256) % 16),
            hex_digit((g / 16) % 16),
            hex_digit(g % 16),
        ]
    }
}

/// Dotted-decimal text of a 4-byte IPv4 payload.
pub open spec fn ipv4_text(b: Seq<u8>) -> Seq<char>
    recommends
        b.len() == 4,
{
    dec_text(b[0] as int) + seq!['.'] + dec_text(b[1] as int) + seq!['.'] + dec_text(b[2] as int)
        + seq!['.'] + dec_text(b[3] as int)
}

/// The `i`-th 16-bit group of a 16-byte IPv6 payload, big-endian.
pub open spec fn group(b: Seq<u8>, i: int) -> int
    recommends
        b.len() == 16,
        0 <= i < 8,
{
    be16(b, 2 * i)
}

/// How many consecutive all-zero groups start at group `i`.
pub open spec fn run_len(b: Seq<u8>, i: int) -> int
    decreases 8 - i,
{
    if i < 0 || i >= 8 {
        0
    } else if group(b, i) == 0 {
        1 + run_len(b, i + 1)
    } else {
        0
    }
}

/// The leftmost group index at or after `i` whose zero run is longest;
/// 8 when `i` is past the last group.
pub open spec fn best_start(b: Seq<u8>, i: int) -> int
    decreases 8 - i,
{
    if i < 0 || i >= 8 {
        8
    } else {
        let rest = best_start(b, i + 1);
        if run_len(b, i) >= run_len(b, rest) {
            i
        } else {
            rest
        }
    }
}

/// Groups `i` to `j` (exclusive) in hex, joined by `':'`.
pub open spec fn groups_text(b: Seq<u8>, i: int, j: int) -> Seq<char>
    decreases j - i,
{
    if i >= j {
        Seq::empty()
    } else if i + 1 == j {
        hex_text(group(b, i))
    } else {
        hex_text(group(b, i)) + seq![':'] + groups_text(b, i + 1, j)
    }
}

/// Text of a 16-byte IPv6 payload: eight hex groups joined by colons,
/// with the longest run of two or more zero groups — the leftmost on a
/// tie — compressed to `::`.
pub open spec fn ipv6_text(b: Seq<u8>) -> Seq<char>
    recommends
        b.len() == 16,
{
    let s = best_start(b, 0);
    if s < 8 && run_len(b, s) >= 2 {
        groups_text(b, 0, s) + seq![':', ':'] + groups_text(b, s + run_len(b, s), 8)
    } else {
        groups_text(b, 0, 8)
    }
}

/// Text of an address payload: IPv4 for four bytes, IPv6 otherwise.
pub open spec fn ip_text(bytes: Seq<u8>) -> Seq<char> {
    if bytes.len() == 4 {
        ipv4_text(bytes)
    } else {
        ipv6_text(bytes)
    }
}

/// The whitespace characters trimmed from HTTPS bodies.
pub open spec fn is_space(c: char) -> bool {
    c == ' ' || c == '\t' || c == '\n' || c == '\r'
}

/// The sequence with its leading whitespace removed.
pub open spec fn trim_front(s: Seq<char>) -> Seq<char>
    decreases s.len(),
{
    if s.len() > 0 && is_space(s[0]) {
        trim_front(s.drop_first())
    } else {
        s
    }
}

/// The sequence with its trailing whitespace removed.
pub open spec fn trim_back(s: Seq<char>) -> Seq<char>
    decreases s.len(),
{
    if s.len() > 0 && is_space(s[s.len() - 1]) {
        trim_back(s.drop_last())
    } else {
        s
    }
}

/// The sequence with leading and trailing whitespace removed.
pub open spec fn trim_text(s: Seq<char>) -> Seq<char> {
    trim_back(trim_front(s))
}

/// A trimmed sequence has no leading whitespace left.
proof fn lemma_trim_front_no_space(s: Seq<char>)
    ensures
        trim_front(s).len() == 0 || !is_space(trim_front(s)[0]),
    decreases s.len(),
{
    if s.len() > 0 && is_space(s[0]) {
        lemma_trim_front_no_space(s.drop_first());
    }
}

/// A trimmed sequence has no trailing whitespace left.
proof fn lemma_trim_back_no_space(s: Seq<char>)
    ensures
        trim_back(s).len() == 0 || !is_space(trim_back(s)[trim_back(s).len() - 1]),
    decreases s.len(),
{
    if s.len() > 0 && is_space(s[s.len() - 1]) {
        lemma_trim_back_no_space(s.drop_last());
    }
}

/// Cutting trailing whitespace does not change the first character.
proof fn lemma_trim_back_keeps_head(s: Seq<char>)
    ensures
        trim_back(s).len() > 0 ==> trim_back(s)[0] == s[0],
    decreases s.len(),
{
    if s.len() > 0 && is_space(s[s.len() - 1]) {
        lemma_trim_back_keeps_head(s.drop_last());
    }
}

/// Trimming is idempotent: what a trim returns is already
/// whitespace-trimmed, so trimming it again changes nothing.
pub proof fn lemma_trim_idempotent(s: Seq<char>)
    ensures
        trim_text(trim_text(s)) == trim_text(s),
{
    let f = trim_front(s);
    let t = trim_back(f);
    lemma_trim_front_no_space(s);
    lemma_trim_back_no_space(f);
    lemma_trim_back_keeps_head(f);
    if t.len() > 0 {
        assert(!is_space(t[0]));
        assert(trim_front(t) == t);
        assert(trim_back(t) == t);
    }
}

/// No digit character is whitespace.
proof fn lemma_hex_digit_not_space(d: int)
    ensures
        !is_space(hex_digit(d)),
{
}

/// A byte's decimal text is non-empty digits at both ends.
proof fn lemma_dec_text_edges(n: int)
    ensures
        dec_text(n).len() > 0,
        !is_space(dec_text(n)[0]),
        !is_space(dec_text(n)[dec_text(n).len() - 1]),
{
    if n < 10 {
        lemma_hex_digit_not_space(n);
    } else if n < 100 {
        lemma_hex_digit_not_space(n / 10);
        lemma_hex_digit_not_space(n % 10);
    } else {
        lemma_hex_digit_not_space(n / 100);
        lemma_hex_digit_not_space(n % 10);
    }
}

/// A group's hex text is non-empty digits at both ends.
proof fn lemma_hex_text_edges(g: int)
    ensures
        hex_text(g).len() > 0,
        !is_space(hex_text(g)[0]),
        !is_space(hex_text(g)[hex_text(g).len() - 1]),
{
    if g < 16 {
        lemma_hex_digit_not_space(g);
    } else if g < 256 {
        lemma_hex_digit_not_space(g / 16);
        lemma_hex_digit_not_space(g % 16);
    } else if g < 4096 {
        lemma_hex_digit_not_space(g / 256);
        lemma_hex_digit_not_space(g % 16);
    } else {
        lemma_hex_digit_not_space(g / 4096);
        lemma_hex_digit_not_space(g % 16);
    }
}

/// A non-empty group range's text is non-empty and whitespace-free at
/// both ends.
proof fn lemma_groups_text_edges(b: Seq<u8>, i: int, j: int)
    requires
        i < j,
    ensures
        groups_text(b, i, j).len() > 0,
        !is_space(groups_text(b, i, j)[0]),
        !is_space(groups_text(b, i, j)[groups_text(b, i, j).len() - 1]),
    decreases j - i,
{
    lemma_hex_text_edges(group(b, i));
    if i + 1 < j {
        lemma_groups_text_edges(b, i + 1, j);
    }
}

/// The text of an extracted address is never empty and carries no
/// whitespace to trim: it is already in the form a resolution reports.
pub proof fn lemma_ip_text_clean(b: Seq<u8>)
    ensures
        ip_text(b).len() > 0,
        trim_text(ip_text(b)) == ip_text(b),
{
    let t = ip_text(b);
    if b.len() == 4 {
        lemma_dec_text_edges(b[0] as int);
        lemma_dec_text_edges(b[3] as int);
    } else {
        let s = best_start(b, 0);
        let e = s + run_len(b, s);
        if s < 8 && run_len(b, s) >= 2 {
            if s > 0 {
                lemma_groups_text_edges(b, 0, s);
            }
            if e < 8 {
                lemma_groups_text_edges(b, e, 8);
            }
        } else {
            lemma_groups_text_edges(b, 0, 8);
        }
    }
    assert(!is_space(t[0]));
    assert(!is_space(t[t.len() - 1]));
    assert(trim_front(t) == t);
    assert(trim_back(t) == t);
}

/// One digit value as a one-character string.
fn digit_str(d: u8) -> (r: &'static str)
    requires
        d < 16,
    ensures
        r@ == seq![hex_digit(d as int)],
{
    match d {
        0 => {
            proof {
                reveal_strlit("0");
            }
            assert("0"@ =~= seq!['0']);
            "0"
        },
        1 => {
            proof {
                reveal_strlit("1");
            }
            assert("1"@ =~= seq!['1']);
            "1"
        },
        2 => {
            proof {
                reveal_strlit("2");
            }
            assert("2"@ =~= seq!['2']);
            "2"
        },
        3 => {
            proof {
                reveal_strlit("3");
            }
            assert("3"@ =~= seq!['3']);
            "3"
        },
        4 => {
            proof {
                reveal_strlit("4");
            }
            assert("4"@ =~= seq!['4']);
            "4"
        },
        5 => {
            proof {
                reveal_strlit("5");
            }
            assert("5"@ =~= seq!['5']);
            "5"
        },
        6 => {
            proof {
                reveal_strlit("6");
            }
            assert("6"@ =~= seq!['6']);
            "6"
        },
        7 => {
            proof {
                reveal_strlit("7");
            }
            assert("7"@ =~= seq!['7']);
            "7"
        },
        8 => {
            proof {
                reveal_strlit("8");
            }
            assert("8"@ =~= seq!['8']);
            "8"
        },
        9 => {
            proof {
                reveal_strlit("9");
            }
            assert("9"@ =~= seq!['9']);
            "9"
        },
        10 => {
            proof {
                reveal_strlit("a");
            }
            assert("a"@ =~= seq!['a']);
            "a"
        },
        11 => {
            proof {
                reveal_strlit("b");
            }
            assert("b"@ =~= seq!['b']);
            "b"
        },
        12 => {
            proof {
                reveal_strlit("c");
            }
            assert("c"@ =~= seq!['c']);
            "c"
        },
        13 => {
            proof {
                reveal_strlit("d");
            }
            assert("d"@ =~= seq!['d']);
            "d"
        },
        14 => {
            proof {
                reveal_strlit("e");
            }
            assert("e"@ =~= seq!['e']);
            "e"
        },
        _ => {
            proof {
                reveal_strlit("f");
            }
            assert("f"@ =~= seq!['f']);
            "f"
        },
    }
}

/// Appends the decimal text of one byte.
fn push_dec(s: &mut String, n: u8)
    ensures
        final(s)@ == old(s)@ + dec_text(n as int),
{
    if n >= 100 {
        s.append(digit_str(n / 100));
        s.append(digit_str((n / 10) % 10));
        s.append(digit_str(n % 10));
        assert(s@ =~= old(s)@ + dec_text(n as int));
    } else if n >= 10 {
        s.append(digit_str(n / 10));
        s.append(digit_str(n % 10));
        assert(s@ =~= old(s)@ + dec_text(n as int));
    } else {
        s.append(digit_str(n));
        assert(s@ =~= old(s)@ + dec_text(n as int));
    }
}

/// Appends the hex text of one 16-bit group.
fn push_hex(s: &mut String, g: u16)
    ensures
        final(s)@ == old(s)@ + hex_text(g as int),
{
    if g >= 4096 {
        s.append(digit_str((g / 4096) as u8));
        s.append(digit_str(((g / 256) % 16) as u8));
        s.append(digit_str(((g / 16) % 16) as u8));
        s.append(digit_str((g % 16) as u8));
        assert(s@ =~= old(s)@ + hex_text(g as int));
    } else if g >= 256 {
        s.append(digit_str((g / 256) as u8));
        s.append(digit_str(((g / 16) % 16) as u8));
        s.append(digit_str((g % 16) as u8));
        assert(s@ =~= old(s)@ + hex_text(g as int));
    } else if g >= 16 {
        s.append(digit_str((g / 16) as u8));
        s.append(digit_str((g % 16) as u8));
        assert(s@ =~= old(s)@ + hex_text(g as int));
    } else {
        s.append(digit_str(g as u8));
        assert(s@ =~= old(s)@ + hex_text(g as int));
    }
}

/// Dotted-decimal text of an IPv4 payload.
fn ipv4_string(b: &[u8; 4]) -> (s: String)
    ensures
        s@ == ipv4_text(b@),
{
    proof {
        reveal_strlit(".");
    }
    let mut s = String::new();
    push_dec(&mut s, b[0]);
    s.append(".");
    push_dec(&mut s, b[1]);
    s.append(".");
    push_dec(&mut s, b[2]);
    s.append(".");
    push_dec(&mut s, b[3]);
    assert("."@ =~= seq!['.']);
    assert(s@ =~= ipv4_text(b@));
    s
}

/// The `i`-th group of an IPv6 payload.
fn group_at(b: &[u8; 16], i: usize) -> (g: u16)
    requires
        i < 8,
    ensures
        g == group(b@, i as int),
{
    (b[2 * i] as u16) * 256 + (b[2 * i + 1] as u16)
}

/// Length of the zero-group run starting at group `i`.
fn run_len_at(b: &[u8; 16], i: usize) -> (r: usize)
    requires
        i <= 8,
    ensures
        r == run_len(b@, i as int),
        r <= 8 - i,
    decreases 8 - i,
{
    if i >= 8 {
        0
    } else if group_at(b, i) == 0 {
        1 + run_len_at(b, i + 1)
    } else {
        0
    }
}

/// Leftmost start of a longest zero run at or after group `i`.
fn best_start_at(b: &[u8; 16], i: usize) -> (r: usize)
    requires
        i <= 8,
    ensures
        r == best_start(b@, i as int),
        i <= r <= 8,
    decreases 8 - i,
{
    if i >= 8 {
        8
    } else {
        let rest = best_start_at(b, i + 1);
        let here = run_len_at(b, i);
        let there = run_len_at(b, rest);
        if here >= there {
            i
        } else {
            rest
        }
    }
}

/// Appends groups `i` to `j` (exclusive) in hex, joined by `':'`.
fn append_groups(s: &mut String, b: &[u8; 16], i: usize, j: usize)
    requires
        i <= j <= 8,
    ensures
        final(s)@ == old(s)@ + groups_text(b@, i as int, j as int),
    decreases j - i,
{
    proof {
        reveal_strlit(":");
    }
    if i >= j {
        assert(s@ =~= old(s)@ + groups_text(b@, i as int, j as int));
    } else if i + 1 == j {
        push_hex(s, group_at(b, i));
        assert(s@ =~= old(s)@ + groups_text(b@, i as int, j as int));
    } else {
        push_hex(s, group_at(b, i));
        s.append(":");
        assert(":"@ =~= seq![':']);
        append_groups(s, b, i + 1, j);
        assert(s@ =~= old(s)@ + groups_text(b@, i as int, j as int));
    }
}

/// Text of an IPv6 payload, longest zero run compressed to `::`.
fn ipv6_string(b: &[u8; 16]) -> (s: String)
    ensures
        s@ == ipv6_text(b@),
{
    let st = best_start_at(b, 0);
    let rl = run_len_at(b, st);
    let mut s = String::new();
    if st < 8 && rl >= 2 {
        append_groups(&mut s, b, 0, st);
        s.append("::");
        proof {
            reveal_strlit("::");
        }
        assert("::"@ =~= seq![':', ':']);
        append_groups(&mut s, b, st + rl, 8);
        assert(s@ =~= ipv6_text(b@));
    } else {
        append_groups(&mut s, b, 0, 8);
        assert(s@ =~= ipv6_text(b@));
    }
    s
}

/// Text of an extracted address, in the form the resolver reports:
/// dotted decimal for IPv4, compressed lowercase hex for IPv6.
pub fn ip_string(ip: &IpAddress) -> (s: String)
    ensures
        s@ == ip_text(ip@),
{
    match ip {
        IpAddress::V4(b) => ipv4_string(b),
        IpAddress::V6(b) => ipv6_string(b),
    }
}

/// Characters a trim removes.
fn is_space_char(c: char) -> (r: bool)
    ensures
        r == is_space(c),
{
    c == ' ' || c == '\t' || c == '\n' || c == '\r'
}

/// Removing leading whitespace is the same as skipping past the first
/// run of whitespace characters.
proof fn lemma_trim_front_skip(s: Seq<char>, i: int)
    requires
        0 <= i <= s.len(),
        forall|j: int| 0 <= j < i ==> is_space(#[trigger] s[j]),
        i == s.len() || !is_space(s[i]),
    ensures
        trim_front(s) == s.skip(i),
    decreases i,
{
    if i == 0 {
        assert(s.skip(0) =~= s);
    } else {
        assert(is_space(s[0]));
        assert(s.drop_first() =~= s.skip(1));
        lemma_trim_front_skip(s.skip(1), i - 1);
        assert(s.skip(1).skip(i - 1) =~= s.skip(i));
    }
}

/// Removing trailing whitespace is the same as cutting at the last
/// non-whitespace character.
proof fn lemma_trim_back_take(s: Seq<char>, j: int)
    requires
        0 <= j <= s.len(),
        forall|k: int| j <= k < s.len() ==> is_space(#[trigger] s[k]),
        j == 0 || !is_space(s[j - 1]),
    ensures
        trim_back(s) == s.take(j),
    decreases s.len() - j,
{
    if j == s.len() {
        assert(s.take(j) =~= s);
    } else {
        assert(is_space(s[s.len() - 1]));
        assert(s.drop_last() =~= s.take(s.len() - 1));
        lemma_trim_back_take(s.take(s.len() - 1), j);
        assert(s.take(s.len() - 1).take(j) =~= s.take(j));
    }
}

/// The body text with leading and trailing whitespace removed.
pub fn trim_str(s: &str) -> (r: String)
    ensures
        r@ == trim_text(s@),
{
    let n = s.unicode_len();
    let mut i: usize = 0;
    while i < n && is_space_char(s.get_char(i))
        invariant
            0 <= i <= n,
            n == s@.len(),
            forall|j: int| 0 <= j < i ==> is_space(#[trigger] s@[j]),
        decreases n - i,
    {
        i += 1;
    }
    let mut j: usize = n;
    while j > i && is_space_char(s.get_char(j - 1))
        invariant
            i <= j <= n,
            n == s@.len(),
            forall|k: int| j <= k < n ==> is_space(#[trigger] s@[k]),
        decreases j,
    {
        j -= 1;
    }
    let t = s.substring_char(i, j);
    proof {
        lemma_trim_front_skip(s@, i as int);
        if j == i {
            lemma_trim_back_take(s@.skip(i as int), 0);
        } else {
            lemma_trim_back_take(s@.skip(i as int), j - i as int);
        }
        assert(s@.skip(i as int).take(j - i as int) =~= s@.subrange(i as int, j as int));
        assert(trim_text(s@) == s@.subrange(i as int, j as int));
    }
    t.to_owned()
}

} // verus!

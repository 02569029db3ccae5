//! The address of a tile on the tile server: `{server}/{z}/{x}/{y}.png`.
use vstd::prelude::*;
use crate::coords::{TileCoordinate, TileKey};

verus! {

/// The character of a decimal digit.
pub open spec fn digit_char(d: nat) -> char {
    if d == 0 {
        '0'
    } else if d == 1 {
        '1'
    } else if d == 2 {
        '2'
    } else if d == 3 {
        '3'
    } else if d == 4 {
        '4'
    } else if d == 5 {
        '5'
    } else if d == 6 {
        '6'
    } else if d == 7 {
        '7'
    } else if d == 8 {
        '8'
    } else {
        '9'
    }
}

/// The decimal digits of a natural number, most significant first, with no
/// leading zero.
pub open spec fn decimal(n: nat) -> Seq<char>
    decreases n,
{
    if n < 10 {
        seq![digit_char(n)]
    } else {
        decimal(n / 10).push(digit_char(n % 10))
    }
}

/// An integer in decimal, with a leading `-` when it is negative.
pub open spec fn signed_decimal(i: int) -> Seq<char> {
    if i < 0 {
        seq!['-'] + decimal((-i) as nat)
    } else {
        decimal(i as nat)
    }
}

/// The address of a tile: the server, then zoom level, column and row,
/// each after a `/`, then `.png`.
pub open spec fn tile_url_chars(server: Seq<char>, k: TileKey) -> Seq<char> {
    server + seq!['/'] + decimal(k.0 as nat) + seq!['/'] + signed_decimal(k.1 as int) + seq!['/']
        + signed_decimal(k.2 as int) + seq!['.', 'p', 'n', 'g']
}

/// A character that `decimal` writes.
pub open spec fn is_digit(c: char) -> bool {
    '0' <= c <= '9'
}

/// A character that `signed_decimal` writes.
pub open spec fn is_number_char(c: char) -> bool {
    is_digit(c) || c == '-'
}

proof fn lemma_decimal_digits(n: nat)
    ensures
        decimal(n).len() >= 1,
        n >= 10 ==> decimal(n).len() >= 2,
        forall|i: int| 0 <= i < decimal(n).len() ==> is_digit(#[trigger] decimal(n)[i]),
    decreases n,
{
    if n >= 10 {
        lemma_decimal_digits(n / 10);
        assert forall|i: int| 0 <= i < decimal(n).len() implies is_digit(#[trigger] decimal(n)[i]) by {
            if i < decimal(n / 10).len() {
                assert(decimal(n)[i] == decimal(n / 10)[i]);
            }
        }
    }
}

proof fn lemma_digit_char_injective(a: nat, b: nat)
    requires
        a < 10,
        b < 10,
        digit_char(a) == digit_char(b),
    ensures
        a == b,
{
}

/// Different natural numbers are written differently.
pub proof fn lemma_decimal_injective(a: nat, b: nat)
    requires
        decimal(a) == decimal(b),
    ensures
        a == b,
    decreases a,
{
    lemma_decimal_digits(a);
    lemma_decimal_digits(b);
    if a < 10 && b < 10 {
        let sa = decimal(a);
        let sb = decimal(b);
        assert(sa == seq![digit_char(a)]);
        assert(sb == seq![digit_char(b)]);
        assert(sa[0] == digit_char(a));
        assert(sb[0] == digit_char(b));
        lemma_digit_char_injective(a, b);
    } else if a >= 10 && b >= 10 {
        let da = decimal(a / 10);
        let db = decimal(b / 10);
        assert(decimal(a).drop_last() =~= da);
        assert(decimal(b).drop_last() =~= db);
        assert(decimal(a).last() == digit_char(a % 10));
        assert(decimal(b).last() == digit_char(b % 10));
        lemma_decimal_injective(a / 10, b / 10);
        lemma_digit_char_injective(a % 10, b % 10);
    }
}

/// The magnitude of an integer.
pub open spec fn magnitude(i: int) -> nat {
    if i < 0 {
        (-i) as nat
    } else {
        i as nat
    }
}

/// Different integers are written differently, and only with digits and `-`.
pub proof fn lemma_signed_decimal_injective(a: int, b: int)
    ensures
        signed_decimal(a) == signed_decimal(b) ==> a == b,
        forall|i: int| 0 <= i < signed_decimal(a).len() ==> is_number_char(#[trigger] signed_decimal(a)[i]),
{
    lemma_decimal_digits(magnitude(a));
    lemma_decimal_digits(magnitude(b));
    if a < 0 {
        assert forall|i: int| 0 <= i < signed_decimal(a).len() implies is_number_char(#[trigger] signed_decimal(a)[i]) by {
            if i > 0 {
                assert(signed_decimal(a)[i] == decimal((-a) as nat)[i - 1]);
            }
        }
    }
    if signed_decimal(a) == signed_decimal(b) {
        assert(signed_decimal(a)[0] == signed_decimal(b)[0]);
        if a < 0 && b < 0 {
            assert(signed_decimal(a).drop_first() =~= decimal((-a) as nat));
            assert(signed_decimal(b).drop_first() =~= decimal((-b) as nat));
            lemma_decimal_injective((-a) as nat, (-b) as nat);
        } else if a >= 0 && b >= 0 {
            lemma_decimal_injective(a as nat, b as nat);
        }
    }
}

/// Two sequences that each start with a part free of `c`, then `c`, are
/// equal only if the parts and the rests are.
proof fn lemma_split_at_separator(a: Seq<char>, r1: Seq<char>, b: Seq<char>, r2: Seq<char>, c: char)
    requires
        a + seq![c] + r1 == b + seq![c] + r2,
        forall|i: int| 0 <= i < a.len() ==> a[i] != c,
        forall|i: int| 0 <= i < b.len() ==> b[i] != c,
    ensures
        a == b,
        r1 == r2,
{
    let s = a + seq![c] + r1;
    let t = b + seq![c] + r2;
    if a.len() < b.len() {
        assert(s[a.len() as int] == c);
        assert(t[a.len() as int] == b[a.len() as int]);
    } else if b.len() < a.len() {
        assert(t[b.len() as int] == c);
        assert(s[b.len() as int] == a[b.len() as int]);
    } else {
        assert(a =~= s.subrange(0, a.len() as int));
        assert(b =~= t.subrange(0, b.len() as int));
        assert(r1 =~= s.subrange(a.len() as int + 1, s.len() as int));
        assert(r2 =~= t.subrange(b.len() as int + 1, t.len() as int));
    }
}

/// The part of a tile address after the server and its `/`.
pub open spec fn tile_path_chars(k: TileKey) -> Seq<char> {
    decimal(k.0 as nat) + seq!['/'] + signed_decimal(k.1 as int) + seq!['/'] + signed_decimal(k.2 as int)
        + seq!['.', 'p', 'n', 'g']
}

proof fn lemma_url_is_server_then_path(server: Seq<char>, k: TileKey)
    ensures
        tile_url_chars(server, k) == server + seq!['/'] + tile_path_chars(k),
        tile_path_chars(k) == tile_url_chars(server, k).subrange(
            server.len() as int + 1,
            tile_url_chars(server, k).len() as int,
        ),
{
    assert(tile_url_chars(server, k) =~= server + seq!['/'] + tile_path_chars(k));
    assert(tile_path_chars(k) =~= tile_url_chars(server, k).subrange(
        server.len() as int + 1,
        tile_url_chars(server, k).len() as int,
    ));
}

proof fn lemma_path_parts(k: TileKey)
    ensures
        tile_path_chars(k) == decimal(k.0 as nat) + seq!['/'] + (signed_decimal(k.1 as int) + seq!['/'] + (
        signed_decimal(k.2 as int) + seq!['.', 'p', 'n', 'g'])),
{
    assert(tile_path_chars(k) =~= decimal(k.0 as nat) + seq!['/'] + (signed_decimal(k.1 as int) + seq!['/'] + (
    signed_decimal(k.2 as int) + seq!['.', 'p', 'n', 'g'])));
}

proof fn lemma_drop_png(a: Seq<char>, b: Seq<char>)
    requires
        a + seq!['.', 'p', 'n', 'g'] == b + seq!['.', 'p', 'n', 'g'],
    ensures
        a == b,
{
    let png = seq!['.', 'p', 'n', 'g'];
    assert(a =~= (a + png).subrange(0, a.len() as int));
    assert(b =~= (b + png).subrange(0, b.len() as int));
}

/// Different tiles have different addresses on the same server.
pub proof fn lemma_tile_urls_distinct(server: Seq<char>, k1: TileKey, k2: TileKey)
    requires
        tile_url_chars(server, k1) == tile_url_chars(server, k2),
    ensures
        k1 == k2,
{
    let png = seq!['.', 'p', 'n', 'g'];
    lemma_url_is_server_then_path(server, k1);
    lemma_url_is_server_then_path(server, k2);
    lemma_path_parts(k1);
    lemma_path_parts(k2);
    lemma_decimal_digits(k1.0 as nat);
    lemma_decimal_digits(k2.0 as nat);
    lemma_signed_decimal_injective(k1.1 as int, k2.1 as int);
    lemma_signed_decimal_injective(k2.1 as int, k1.1 as int);
    lemma_signed_decimal_injective(k1.2 as int, k2.2 as int);
    lemma_signed_decimal_injective(k2.2 as int, k1.2 as int);
    let x1 = signed_decimal(k1.1 as int);
    let x2 = signed_decimal(k2.1 as int);
    let y1 = signed_decimal(k1.2 as int);
    let y2 = signed_decimal(k2.2 as int);
    lemma_split_at_separator(
        decimal(k1.0 as nat),
        x1 + seq!['/'] + (y1 + png),
        decimal(k2.0 as nat),
        x2 + seq!['/'] + (y2 + png),
        '/',
    );
    lemma_decimal_injective(k1.0 as nat, k2.0 as nat);
    lemma_split_at_separator(x1, y1 + png, x2, y2 + png, '/');
    lemma_drop_png(y1, y2);
}

/// Appends a character to a string (`String::push`).
#[verifier::external_body]
fn push_char(s: &mut String, c: char)
    ensures
        final(s)@ == old(s)@.push(c),
{
    s.push(c);
}

fn digit(d: u64) -> (c: char)
    requires
        d < 10,
    ensures
        c == digit_char(d as nat),
{
    if d == 0 {
        '0'
    } else if d == 1 {
        '1'
    } else if d == 2 {
        '2'
    } else if d == 3 {
        '3'
    } else if d == 4 {
        '4'
    } else if d == 5 {
        '5'
    } else if d == 6 {
        '6'
    } else if d == 7 {
        '7'
    } else if d == 8 {
        '8'
    } else {
        '9'
    }
}

fn push_decimal(s: &mut String, n: u64)
    ensures
        final(s)@ == old(s)@ + decimal(n as nat),
    decreases n,
{
    if n >= 10 {
        push_decimal(s, n / 10);
    }
    push_char(s, digit(n % 10));
}

fn push_signed_decimal(s: &mut String, i: i64)
    ensures
        final(s)@ == old(s)@ + signed_decimal(i as int),
{
    if i < 0 {
        push_char(s, '-');
        let magnitude: u64 = if i == i64::MIN {
            9_223_372_036_854_775_808u64
        } else {
            (-i) as u64
        };
        push_decimal(s, magnitude);
        assert(s@ =~= old(s)@ + signed_decimal(i as int));
    } else {
        push_decimal(s, i as u64);
    }
}

/// The address of `coord` on the tile server at `server`.
pub fn tile_url(server: &str, coord: TileCoordinate) -> (url: String)
    ensures
        url@ == tile_url_chars(server@, coord@),
{
    let mut url = server.to_owned();
    push_char(&mut url, '/');
    push_decimal(&mut url, coord.z as u64);
    push_char(&mut url, '/');
    push_signed_decimal(&mut url, coord.x);
    push_char(&mut url, '/');
    push_signed_decimal(&mut url, coord.y);
    push_char(&mut url, '.');
    push_char(&mut url, 'p');
    push_char(&mut url, 'n');
    push_char(&mut url, 'g');
    assert(url@ =~= tile_url_chars(server@, coord@));
    url
}

} // verus!

//! Text and identifier helpers: broadcast addresses, node ids, service URLs.
use vstd::prelude::*;
use vstd::string::*;

use crate::data::{ability_name, entry_pairs, AllAbility, UrlEntry};
use crate::bus::HTTP_SERVICE_PORT;
use crate::error::Error;

verus! {

/// The decimal digit character for `d < 10`.
pub open spec fn digit_char(d: nat) -> char {
    (d + 48) as char
}

/// The decimal text of a natural number, without leading zeros.
pub open spec fn decimal(n: nat) -> Seq<char>
    decreases n,
{
    if n < 10 {
        seq![digit_char(n)]
    } else {
        decimal(n / 10) + seq![digit_char(n % 10)]
    }
}

/// The one-character text of the digit `d`.
fn digit_text(d: u16) -> (r: String)
    requires
        d < 10,
    ensures
        r@ == seq![digit_char(d as nat)],
{
    let digits = "0123456789";
    proof {
        reveal_strlit("0123456789");
    }
    let s = digits.substring_char(d as usize, d as usize + 1);
    String::from_str(s)
}

/// The decimal text of a port number.
pub fn port_text(port: u16) -> (r: String)
    ensures
        r@ == decimal(port as nat),
{
    if port == 0 {
        return digit_text(0);
    }
    let mut text = String::new();
    let mut rest = port;
    while rest > 0
        invariant
            (if rest == 0 { text@ } else { decimal(rest as nat) + text@ }) == decimal(port as nat),
        decreases rest,
    {
        let d = digit_text(rest % 10);
        let ghost old_text = text@;
        text = d.concat(text.as_str());
        proof {
            if rest >= 10 {
                assert(decimal(rest as nat) == decimal((rest / 10) as nat) + seq![digit_char((rest % 10) as nat)]);
                assert(decimal(rest as nat) + old_text == decimal((rest / 10) as nat) + text@);
            } else {
                assert(decimal(rest as nat) == seq![digit_char(rest as nat)]);
            }
        }
        rest = rest / 10;
    }
    text
}

/// The URL under which a node at `ip` serves ability `a`:
/// `http://<ip>:<HTTP_SERVICE_PORT>/<ability name>`.
pub open spec fn service_url(ip: Seq<char>, a: AllAbility) -> Seq<char> {
    "http://"@ + ip + ":"@ + decimal(HTTP_SERVICE_PORT as nat) + "/"@ + ability_name(a)
}

/// A service URL is `http://`, the address, the port `8080` and the ability's
/// name, whatever the address: `http://<ip>:8080/take_photo` for taking photos,
/// `http://<ip>:8080/collect_running_data` and `http://<ip>:8080/collect_body_data`
/// for the other two abilities.
pub proof fn lemma_service_url_format(ip: Seq<char>, a: AllAbility)
    ensures
        service_url(ip, a) == "http://"@ + ip + ":8080/"@ + ability_name(a),
        service_url(ip, a) == match a {
            AllAbility::TakePhoto => "http://"@ + ip + ":8080/take_photo"@,
            AllAbility::CollectRunningData => "http://"@ + ip + ":8080/collect_running_data"@,
            AllAbility::CollectBodyData => "http://"@ + ip + ":8080/collect_body_data"@,
        },
{
    reveal_strlit("http://");
    reveal_strlit(":");
    reveal_strlit("/");
    reveal_strlit(":8080/");
    reveal_strlit("take_photo");
    reveal_strlit("collect_running_data");
    reveal_strlit("collect_body_data");
    reveal_strlit(":8080/take_photo");
    reveal_strlit(":8080/collect_running_data");
    reveal_strlit(":8080/collect_body_data");
    assert(decimal(8080) =~= seq!['8', '0', '8', '0']) by {
        reveal_with_fuel(decimal, 5);
    }
    assert(":"@ + decimal(HTTP_SERVICE_PORT as nat) + "/"@ =~= ":8080/"@);
    assert(service_url(ip, a) =~= "http://"@ + ip + ":8080/"@ + ability_name(a));
    match a {
        AllAbility::TakePhoto => {
            assert(":8080/"@ + "take_photo"@ =~= ":8080/take_photo"@);
            assert("http://"@ + ip + ":8080/"@ + ability_name(a) =~= "http://"@ + ip + ":8080/take_photo"@);
        },
        AllAbility::CollectRunningData => {
            assert(":8080/"@ + "collect_running_data"@ =~= ":8080/collect_running_data"@);
            assert("http://"@ + ip + ":8080/"@ + ability_name(a) =~= "http://"@ + ip
                + ":8080/collect_running_data"@);
        },
        AllAbility::CollectBodyData => {
            assert(":8080/"@ + "collect_body_data"@ =~= ":8080/collect_body_data"@);
            assert("http://"@ + ip + ":8080/"@ + ability_name(a) =~= "http://"@ + ip
                + ":8080/collect_body_data"@);
        },
    }
}

/// The (URL, ability name) entries for a list of abilities served at `ip`, in order.
pub open spec fn service_entries(abilities: Seq<AllAbility>, ip: Seq<char>) -> Seq<(Seq<char>, Seq<char>)> {
    abilities.map_values(|a: AllAbility| (service_url(ip, a), ability_name(a)))
}

/// The entries under which a node at `http_ip` offers `abilities`, one per ability, in order.
pub fn gen_urls(abilities: &Vec<AllAbility>, http_ip: &str) -> (r: Vec<UrlEntry>)
    ensures
        entry_pairs(r@) == service_entries(abilities@, http_ip@),
{
    let port = port_text(HTTP_SERVICE_PORT);
    let mut result: Vec<UrlEntry> = Vec::new();
    let mut i: usize = 0;
    while i < abilities.len()
        invariant
            i <= abilities@.len(),
            port@ == decimal(HTTP_SERVICE_PORT as nat),
            entry_pairs(result@) == service_entries(abilities@.take(i as int), http_ip@),
        decreases abilities@.len() - i,
    {
        let a = abilities[i];
        let name = a.to_string();
        let mut url = String::from_str("http://");
        url.append(http_ip);
        url.append(":");
        url.append(port.as_str());
        url.append("/");
        url.append(name.as_str());
        let entry = UrlEntry { url, ability: name };
        let ghost before = result@;
        result.push(entry);
        proof {
            assert(abilities@.take(i + 1) == abilities@.take(i as int).push(a));
            assert(entry_pairs(result@) == entry_pairs(before).push(entry.pair()));
        }
        i = i + 1;
    }
    proof {
        assert(abilities@.take(abilities@.len() as int) == abilities@);
    }
    result
}

/// The fields of `s` between occurrences of `sep`, as `str::split` yields them:
/// there is always at least one field, and an empty text has one empty field.
pub open spec fn split_on(s: Seq<char>, sep: char) -> Seq<Seq<char>>
    decreases s.len(),
{
    if s.len() == 0 {
        seq![Seq::<char>::empty()]
    } else {
        let rest = split_on(s.drop_first(), sep);
        if s[0] == sep {
            seq![Seq::<char>::empty()] + rest
        } else {
            rest.update(0, seq![s[0]] + rest[0])
        }
    }
}

/// The first `k` fields (all of them if there are fewer), each followed by a
/// dot, concatenated.
pub open spec fn dotted_first(parts: Seq<Seq<char>>, k: nat) -> Seq<char>
    decreases parts.len(),
{
    if parts.len() == 0 || k == 0 {
        Seq::<char>::empty()
    } else {
        parts[0] + seq!['.'] + dotted_first(parts.drop_first(), (k - 1) as nat)
    }
}

/// The broadcast address of the /24 network of `addr`: its first three
/// dot-separated fields, each followed by a dot, then `255`.
pub open spec fn broadcast_addr(addr: Seq<char>) -> Seq<char> {
    dotted_first(split_on(addr, '.'), 3) + "255"@
}

/// The first `k` fields of `s`, each followed by a dot.
spec fn dotted_prefix(s: Seq<char>, k: nat) -> Seq<char> {
    dotted_first(split_on(s, '.'), k)
}

proof fn lemma_split_nonempty(s: Seq<char>, sep: char)
    ensures
        split_on(s, sep).len() >= 1,
    decreases s.len(),
{
    if s.len() > 0 {
        lemma_split_nonempty(s.drop_first(), sep);
    }
}

proof fn lemma_dotted_prefix_empty(k: nat)
    requires
        k >= 1,
    ensures
        dotted_prefix(Seq::<char>::empty(), k) == seq!['.'],
{
    let parts = split_on(Seq::<char>::empty(), '.');
    assert(parts == seq![Seq::<char>::empty()]);
    assert(parts.drop_first().len() == 0);
    assert(dotted_first(parts.drop_first(), (k - 1) as nat) == Seq::<char>::empty());
    assert(dotted_first(parts, k) == Seq::<char>::empty() + seq!['.'] + Seq::<char>::empty());
}

proof fn lemma_dotted_prefix_zero(s: Seq<char>)
    ensures
        dotted_prefix(s, 0) == Seq::<char>::empty(),
{
}

/// Reading one character off the front of `s`: a dot closes a field.
proof fn lemma_dotted_prefix_step(s: Seq<char>, k: nat)
    requires
        s.len() > 0,
        k >= 1,
    ensures
        dotted_prefix(s, k) == seq![s[0]] + (if s[0] == '.' {
            dotted_prefix(s.drop_first(), (k - 1) as nat)
        } else {
            dotted_prefix(s.drop_first(), k)
        }),
{
    let rest = split_on(s.drop_first(), '.');
    lemma_split_nonempty(s.drop_first(), '.');
    let parts = split_on(s, '.');
    if s[0] == '.' {
        assert(parts == seq![Seq::<char>::empty()] + rest);
        assert(parts.drop_first() == rest);
        assert(dotted_first(parts, k) == parts[0] + seq!['.'] + dotted_first(rest, (k - 1) as nat));
        assert(seq!['.'] == seq![s[0]]);
        assert(dotted_first(parts, k) == seq![s[0]] + dotted_first(rest, (k - 1) as nat));
    } else {
        assert(parts == rest.update(0, seq![s[0]] + rest[0]));
        assert(parts.drop_first() == rest.drop_first());
        assert(dotted_first(rest, k) == rest[0] + seq!['.'] + dotted_first(rest.drop_first(), (k - 1) as nat));
        assert(dotted_first(parts, k) == parts[0] + seq!['.'] + dotted_first(parts.drop_first(), (k - 1) as nat));
        assert(dotted_first(parts, k) == seq![s[0]] + dotted_first(rest, k));
    }
}

/// A field with no dot in it.
pub open spec fn dot_free(s: Seq<char>) -> bool {
    forall|i: int| 0 <= i < s.len() ==> s[i] != '.'
}

proof fn lemma_split_last_field(d: Seq<char>)
    requires
        dot_free(d),
    ensures
        split_on(d, '.') == seq![d],
    decreases d.len(),
{
    if d.len() == 0 {
        assert(d =~= Seq::<char>::empty());
    } else {
        assert(dot_free(d.drop_first()));
        lemma_split_last_field(d.drop_first());
        let rest = split_on(d.drop_first(), '.');
        assert(split_on(d, '.') == rest.update(0, seq![d[0]] + rest[0]));
        assert(seq![d[0]] + d.drop_first() =~= d);
        assert(rest.update(0, seq![d[0]] + rest[0]) =~= seq![d]);
    }
}

proof fn lemma_split_first_field(a: Seq<char>, rest: Seq<char>)
    requires
        dot_free(a),
    ensures
        split_on(a + seq!['.'] + rest, '.') == seq![a] + split_on(rest, '.'),
    decreases a.len(),
{
    let s = a + seq!['.'] + rest;
    if a.len() == 0 {
        assert(s =~= seq!['.'] + rest);
        assert(s.drop_first() =~= rest);
        assert(s[0] == '.');
        assert(a =~= Seq::<char>::empty());
        assert(split_on(s, '.') == seq![Seq::<char>::empty()] + split_on(rest, '.'));
    } else {
        assert(s[0] == a[0]);
        assert(s.drop_first() =~= a.drop_first() + seq!['.'] + rest);
        assert(dot_free(a.drop_first()));
        lemma_split_first_field(a.drop_first(), rest);
        let tail = split_on(s.drop_first(), '.');
        assert(tail == seq![a.drop_first()] + split_on(rest, '.'));
        assert(split_on(s, '.') == tail.update(0, seq![s[0]] + tail[0]));
        assert(seq![a[0]] + a.drop_first() =~= a);
        assert(tail.update(0, seq![s[0]] + tail[0]) =~= seq![a] + split_on(rest, '.'));
    }
}

/// For an address of four dot-free fields `a.b.c.d`, the broadcast address keeps
/// the network part and puts `255` as the host: `a.b.c.255`.
pub proof fn lemma_broadcast_keeps_network(a: Seq<char>, b: Seq<char>, c: Seq<char>, d: Seq<char>)
    requires
        dot_free(a),
        dot_free(b),
        dot_free(c),
        dot_free(d),
    ensures
        broadcast_addr(a + seq!['.'] + b + seq!['.'] + c + seq!['.'] + d) == a + seq!['.'] + b + seq!['.'] + c
            + seq!['.'] + "255"@,
{
    let cd = c + seq!['.'] + d;
    let bcd = b + seq!['.'] + cd;
    let abcd = a + seq!['.'] + bcd;
    assert(a + seq!['.'] + b + seq!['.'] + c + seq!['.'] + d =~= abcd);
    lemma_split_last_field(d);
    lemma_split_first_field(c, d);
    lemma_split_first_field(b, cd);
    lemma_split_first_field(a, bcd);
    let parts = split_on(abcd, '.');
    assert(parts == seq![a, b, c, d]);
    assert(parts.drop_first() == seq![b, c, d]);
    assert(parts.drop_first().drop_first() == seq![c, d]);
    assert(parts.drop_first().drop_first().drop_first() == seq![d]);
    let p1 = parts.drop_first();
    let p2 = p1.drop_first();
    let p3 = p2.drop_first();
    assert(dotted_first(p3, 0) == Seq::<char>::empty());
    assert(dotted_first(p2, 1) == p2[0] + seq!['.'] + dotted_first(p3, 0));
    assert(dotted_first(p1, 2) == p1[0] + seq!['.'] + dotted_first(p2, 1));
    assert(dotted_first(parts, 3) == parts[0] + seq!['.'] + dotted_first(p1, 2));
    assert(dotted_first(parts, 3) == a + seq!['.'] + (b + seq!['.'] + (c + seq!['.'] + Seq::<char>::empty())));
    assert(a + seq!['.'] + (b + seq!['.'] + (c + seq!['.'] + Seq::<char>::empty())) =~= a + seq!['.'] + b
        + seq!['.'] + c + seq!['.']);
}

/// The broadcast address (`x.y.z.255`) of the network that `addr` lies in: its
/// first three dot-separated fields, each followed by a dot, then `255`. It
/// always succeeds.
pub fn get_broadcast_addr(addr: String) -> (r: Result<String, Error>)
    ensures
        r matches Ok(text) && text@ == broadcast_addr(addr@),
{
    let s = addr.as_str();
    let n = s.unicode_len();
    let mut i: usize = 0;
    let mut dots: usize = 0;
    proof {
        assert(s@.skip(0) == s@);
        assert(s@.take(0) == Seq::<char>::empty());
        assert(s@.take(0) + dotted_prefix(s@.skip(0), 3) == dotted_prefix(s@, 3));
    }
    while i < n && dots < 3
        invariant
            n == s@.len(),
            i <= n,
            dots <= 3,
            s@.take(i as int) + dotted_prefix(s@.skip(i as int), (3 - dots) as nat) == dotted_prefix(s@, 3),
        decreases n - i,
    {
        let c = s.get_char(i);
        proof {
            let tail = s@.skip(i as int);
            assert(tail[0] == c);
            assert(tail.drop_first() == s@.skip(i + 1));
            lemma_dotted_prefix_step(tail, (3 - dots) as nat);
            assert(s@.take(i + 1) == s@.take(i as int) + seq![c]);
        }
        if c == '.' {
            dots = dots + 1;
        }
        i = i + 1;
    }
    let mut text = String::from_str(s.substring_char(0, i));
    proof {
        if dots == 3 {
            lemma_dotted_prefix_zero(s@.skip(i as int));
        } else {
            assert(s@.skip(i as int) == Seq::<char>::empty());
            lemma_dotted_prefix_empty((3 - dots) as nat);
        }
        assert(s@.subrange(0, i as int) == s@.take(i as int));
    }
    if dots < 3 {
        text.append(".");
        proof {
            reveal_strlit(".");
        }
    }
    text.append("255");
    Ok(text)
}

#[verifier::external_type_specification]
#[verifier::external_body]
pub struct ExSha256(crypto::sha2::Sha256);

/// The bytes fed to a SHA-256 hasher so far.
pub uninterp spec fn sha256_input(h: crypto::sha2::Sha256) -> Seq<u8>;

/// Whether a SHA-256 hasher has produced its digest (it then takes no more input).
pub uninterp spec fn sha256_finished(h: crypto::sha2::Sha256) -> bool;

/// The SHA-256 digest of `data`, as rust-crypto writes it in hexadecimal.
pub uninterp spec fn sha256_hex(data: Seq<u8>) -> Seq<char>;

/// A lower-case hexadecimal digit.
pub open spec fn is_lower_hex(c: char) -> bool {
    ('0' <= c && c <= '9') || ('a' <= c && c <= 'f')
}

/// `crypto::sha2::Sha256::new`: a hasher that has read nothing.
#[verifier::external_body]
fn sha256_new() -> (h: crypto::sha2::Sha256)
    ensures
        sha256_input(h) == Seq::<u8>::empty(),
        !sha256_finished(h),
{
    crypto::sha2::Sha256::new()
}

/// `crypto::digest::Digest::input_str` on a SHA-256 hasher: it reads the UTF-8
/// bytes of `s`. The hasher panics after its digest was taken and when the total
/// length in bits overflows a `u64`; both are excluded.
#[verifier::external_body]
fn sha256_input_str(h: &mut crypto::sha2::Sha256, s: &str)
    requires
        !sha256_finished(*old(h)),
        (sha256_input(*old(h)).len() + s.spec_bytes().len()) * 8 <= u64::MAX,
    ensures
        sha256_input(*final(h)) == sha256_input(*old(h)) + s.spec_bytes(),
        !sha256_finished(*final(h)),
{
    crypto::digest::Digest::input_str(h, s)
}

/// `crypto::digest::Digest::result_str` on a SHA-256 hasher: the digest of what
/// it read, as 64 lower-case hexadecimal digits (32 bytes, two digits each).
#[verifier::external_body]
fn sha256_result_str(h: &mut crypto::sha2::Sha256) -> (r: String)
    ensures
        r@ == sha256_hex(sha256_input(*old(h))),
        r@.len() == 64,
        forall|i: int| 0 <= i < r@.len() ==> is_lower_hex(#[trigger] r@[i]),
        sha256_finished(*final(h)),
        sha256_input(*final(h)) == sha256_input(*old(h)),
{
    crypto::digest::Digest::result_str(h)
}

/// The ASCII code of a lower-case hexadecimal digit.
pub open spec fn is_lower_hex_byte(b: u8) -> bool {
    (48 <= b && b <= 57) || (97 <= b && b <= 102)
}

/// The unsigned number whose big-endian bytes are `bytes`.
pub open spec fn be_value(bytes: Seq<u8>) -> nat
    decreases bytes.len(),
{
    if bytes.len() == 0 {
        0
    } else {
        be_value(bytes.drop_last()) * 256 + bytes.last() as nat
    }
}

/// `256` to the power `n`.
pub open spec fn pow256(n: nat) -> nat
    decreases n,
{
    if n == 0 {
        1
    } else {
        pow256((n - 1) as nat) * 256
    }
}

/// The node id read off a hexadecimal digest: its first eight characters, taken
/// as bytes, read as a big-endian number.
pub open spec fn digest_node_id(hex: Seq<char>) -> nat {
    be_value(hex.take(8).map_values(|c: char| c as u8))
}

/// The node id of a node at `address`: read off the SHA-256 digest of its UTF-8 bytes.
pub open spec fn node_id_of(address: Seq<char>) -> nat {
    digest_node_id(sha256_hex(vstd::utf8::encode_utf8(address)))
}

proof fn lemma_be_value_bound(bytes: Seq<u8>)
    ensures
        be_value(bytes) < pow256(bytes.len()),
    decreases bytes.len(),
{
    if bytes.len() > 0 {
        let prefix = bytes.drop_last();
        lemma_be_value_bound(prefix);
        let v = be_value(prefix);
        let p = pow256(prefix.len());
        let b = bytes.last();
        assert(v * 256 + b < p * 256) by (nonlinear_arith)
            requires
                v < p,
                b < 256,
        ;
    }
}

/// The node id that `generate_node_id` reads off a hexadecimal digest: the first
/// eight characters, as bytes, read as a big-endian `u64`.
pub fn node_id_from_digest(hex: &str) -> (id: u64)
    requires
        hex@.len() >= 8,
        forall|i: int| 0 <= i < 8 ==> (#[trigger] hex@[i] as u32) < 128,
    ensures
        id == digest_node_id(hex@),
{
    let ghost bytes = hex@.take(8).map_values(|c: char| c as u8);
    let mut id: u64 = 0;
    let mut i: usize = 0;
    proof {
        assert(bytes.take(0) == Seq::<u8>::empty());
        reveal_with_fuel(pow256, 9);
    }
    while i < 8
        invariant
            i <= 8,
            hex@.len() >= 8,
            bytes == hex@.take(8).map_values(|c: char| c as u8),
            id == be_value(bytes.take(i as int)),
            pow256(8) == 0x1_0000_0000_0000_0000,
        decreases 8 - i,
    {
        let c = hex.get_char(i);
        let b = c as u8;
        proof {
            let prefix = bytes.take(i as int);
            let next = bytes.take(i + 1);
            assert(next.drop_last() == prefix);
            assert(next.last() == b);
            lemma_be_value_bound(prefix);
            assert(pow256(i as nat) <= pow256(7)) by {
                reveal_with_fuel(pow256, 9);
            }
            assert(pow256(7) == 0x100_0000_0000_0000) by {
                reveal_with_fuel(pow256, 9);
            }
        }
        id = id * 256 + b as u64;
        i = i + 1;
    }
    proof {
        assert(bytes.take(8) == bytes);
    }
    id
}

/// The node id of a node at `node_address`: the first eight hexadecimal digits
/// of the SHA-256 digest of the address, taken as bytes, read as a big-endian
/// `u64`. The address must be short enough for the hasher's bit count.
pub fn generate_node_id(node_address: String) -> (id: u64)
    requires
        vstd::utf8::encode_utf8(node_address@).len() * 8 <= u64::MAX,
    ensures
        id == node_id_of(node_address@),
        exists|bytes: Seq<u8>|
            {
                &&& bytes.len() == 8
                &&& forall|k: int| 0 <= k < 8 ==> is_lower_hex_byte(#[trigger] bytes[k])
                &&& id == be_value(bytes)
            },
{
    let mut hasher = sha256_new();
    sha256_input_str(&mut hasher, node_address.as_str());
    let hex = sha256_result_str(&mut hasher);
    proof {
        assert(sha256_input(hasher) == vstd::utf8::encode_utf8(node_address@));
        assert forall|i: int| 0 <= i < 8 implies (#[trigger] hex@[i] as u32) < 128 by {
            assert(is_lower_hex(hex@[i]));
        }
        let bytes = hex@.take(8).map_values(|c: char| c as u8);
        assert forall|k: int| 0 <= k < 8 implies is_lower_hex_byte(#[trigger] bytes[k]) by {
            assert(is_lower_hex(hex@[k]));
            assert(bytes[k] == hex@[k] as u8);
        }
    }
    node_id_from_digest(hex.as_str())
}

} // verus!

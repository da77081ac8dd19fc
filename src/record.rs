//! The user record and its storage encoding.
//!
//! A record is stored as its three fields in the order `id`, `name`, `email`.
//! Each field is written as the byte length of its UTF-8 text, in eight bytes
//! (least significant first), followed by that text.
use vstd::prelude::*;
use vstd::utf8::*;

verus! {

/// Number of bytes that carry the length of one field.
pub const LEN_BYTES: usize = 8;

/// A persisted user.
#[derive(Clone, Debug, PartialEq, Eq)]
pub struct User {
    pub id: String,
    pub name: String,
    pub email: String,
}

/// The mathematical value of a `User`: its three texts.
pub struct UserView {
    pub id: Seq<char>,
    pub name: Seq<char>,
    pub email: Seq<char>,
}

impl View for User {
    type V = UserView;

    open spec fn view(&self) -> UserView {
        UserView { id: self.id@, name: self.name@, email: self.email@ }
    }
}

/// `256` to the power `k`.
pub open spec fn pow256(k: nat) -> nat
    decreases k,
{
    if k == 0 {
        1
    } else {
        256 * pow256((k - 1) as nat)
    }
}

/// The `k` least significant base-256 digits of `n`, least significant first.
pub open spec fn le_bytes(n: nat, k: nat) -> Seq<u8>
    decreases k,
{
    if k == 0 {
        Seq::empty()
    } else {
        seq![(n % 256) as u8] + le_bytes(n / 256, (k - 1) as nat)
    }
}

/// The number whose base-256 digits, least significant first, are `b`.
pub open spec fn le_value(b: Seq<u8>) -> nat
    decreases b.len(),
{
    if b.len() == 0 {
        0
    } else {
        b[0] as nat + 256 * le_value(b.drop_first())
    }
}

/// The encoding of one text field: its UTF-8 length, then its UTF-8 bytes.
pub open spec fn encode_field(s: Seq<char>) -> Seq<u8> {
    le_bytes(encode_utf8(s).len(), LEN_BYTES as nat) + encode_utf8(s)
}

/// The stored form of a user.
pub open spec fn encode_record(u: UserView) -> Seq<u8> {
    encode_field(u.id) + encode_field(u.name) + encode_field(u.email)
}

/// Reads one field from the front of `b`: its text and the bytes after it.
pub open spec fn parse_field(b: Seq<u8>) -> Option<(Seq<char>, Seq<u8>)> {
    if b.len() < LEN_BYTES {
        None
    } else {
        let n = le_value(b.subrange(0, LEN_BYTES as int));
        if b.len() - LEN_BYTES < n {
            None
        } else {
            let body = b.subrange(LEN_BYTES as int, LEN_BYTES + n);
            if valid_utf8(body) {
                Some((decode_utf8(body), b.subrange(LEN_BYTES + n, b.len() as int)))
            } else {
                None
            }
        }
    }
}

/// The user that `b` holds, if `b` is exactly three well-formed fields.
pub open spec fn parse_record(b: Seq<u8>) -> Option<UserView> {
    match parse_field(b) {
        None => None,
        Some((id, r1)) => match parse_field(r1) {
            None => None,
            Some((name, r2)) => match parse_field(r2) {
                None => None,
                Some((email, r3)) => if r3.len() == 0 {
                    Some(UserView { id, name, email })
                } else {
                    None
                },
            },
        },
    }
}

/// Every field's UTF-8 text is short enough to be held in memory.
pub open spec fn fields_fit(u: UserView) -> bool {
    &&& encode_utf8(u.id).len() <= usize::MAX
    &&& encode_utf8(u.name).len() <= usize::MAX
    &&& encode_utf8(u.email).len() <= usize::MAX
}

/// Reading back the `k` digits of a number below `256` to the power `k`
/// gives that number.
pub proof fn lemma_le_value_le_bytes(n: nat, k: nat)
    requires
        n < pow256(k),
    ensures
        le_value(le_bytes(n, k)) == n,
        le_bytes(n, k).len() == k,
    decreases k,
{
    if k > 0 {
        let p = pow256((k - 1) as nat);
        assert(n / 256 < p) by (nonlinear_arith)
            requires
                n < 256 * p,
        ;
        lemma_le_value_le_bytes(n / 256, (k - 1) as nat);
        let b = le_bytes(n, k);
        assert(b.drop_first() =~= le_bytes(n / 256, (k - 1) as nat));
        assert((n % 256) as u8 as nat == n % 256);
        assert(n % 256 + 256 * (n / 256) == n) by (nonlinear_arith);
    }
}

proof fn lemma_pow256_8()
    ensures
        pow256(LEN_BYTES as nat) == 0x1_0000_0000_0000_0000,
{
    reveal_with_fuel(pow256, 9);
}

proof fn lemma_parse_field(s: Seq<char>, rest: Seq<u8>)
    requires
        encode_utf8(s).len() <= usize::MAX,
    ensures
        parse_field(encode_field(s) + rest) == Some((s, rest)),
{
    let bytes = encode_utf8(s);
    let n = bytes.len();
    lemma_pow256_8();
    lemma_le_value_le_bytes(n, LEN_BYTES as nat);
    let b = encode_field(s) + rest;
    assert(b.subrange(0, LEN_BYTES as int) =~= le_bytes(n, LEN_BYTES as nat));
    assert(b.subrange(LEN_BYTES as int, LEN_BYTES + n) =~= bytes);
    assert(b.subrange(LEN_BYTES + n, b.len() as int) =~= rest);
    encode_utf8_valid_utf8(s);
    encode_utf8_decode_utf8(s);
}

/// Decoding the encoding of a user gives back that user, field for field.
pub proof fn lemma_round_trip(u: UserView)
    requires
        fields_fit(u),
    ensures
        parse_record(encode_record(u)) == Some(u),
{
    let f1 = encode_field(u.id);
    let f2 = encode_field(u.name);
    let f3 = encode_field(u.email);
    assert(encode_record(u) =~= f1 + (f2 + (f3 + Seq::empty())));
    lemma_parse_field(u.id, f2 + (f3 + Seq::empty()));
    lemma_parse_field(u.name, f3 + Seq::empty());
    lemma_parse_field(u.email, Seq::empty());
}

/// Relies on `String::from_utf8`: it succeeds exactly on valid UTF-8 and then
/// holds the text that the bytes encode.
#[verifier::external_body]
fn string_from_utf8(v: Vec<u8>) -> (r: Option<String>)
    ensures
        r is Some <==> valid_utf8(v@),
        r matches Some(s) ==> s@ == decode_utf8(v@),
{
    String::from_utf8(v).ok()
}

/// Appends the `LEN_BYTES` little-endian bytes of `n` to `out`.
fn push_len(out: &mut Vec<u8>, n: u64)
    ensures
        final(out)@ == old(out)@ + le_bytes(n as nat, LEN_BYTES as nat),
{
    let ghost start = out@;
    let mut x: u64 = n;
    let mut i: usize = 0;
    while i < LEN_BYTES
        invariant
            i <= LEN_BYTES,
            le_bytes(n as nat, LEN_BYTES as nat) == out@.subrange(start.len() as int, out@.len() as int)
                + le_bytes(x as nat, (LEN_BYTES - i) as nat),
            out@.subrange(0, start.len() as int) == start,
            start.len() <= out@.len(),
        decreases LEN_BYTES - i,
    {
        let ghost before = out@;
        out.push((x % 256) as u8);
        assert(out@.subrange(start.len() as int, out@.len() as int) =~= before.subrange(
            start.len() as int,
            before.len() as int,
        ).push((x % 256) as u8));
        assert(out@.subrange(0, start.len() as int) =~= before.subrange(0, start.len() as int));
        assert(le_bytes(x as nat, (LEN_BYTES - i) as nat) == seq![(x % 256) as u8] + le_bytes(
            (x / 256) as nat,
            (LEN_BYTES - i - 1) as nat,
        ));
        x = x / 256;
        i = i + 1;
        assert(le_bytes(n as nat, LEN_BYTES as nat) =~= out@.subrange(start.len() as int, out@.len() as int)
            + le_bytes(x as nat, (LEN_BYTES - i) as nat));
    }
    assert(out@ =~= start + le_bytes(n as nat, LEN_BYTES as nat));
}

/// Reads the `LEN_BYTES` little-endian bytes of `b` that start at `pos`.
fn read_len(b: &[u8], pos: usize) -> (r: u64)
    requires
        pos + LEN_BYTES <= b@.len(),
    ensures
        r as nat == le_value(b@.subrange(pos as int, pos + LEN_BYTES)),
{
    let len = b.len();
    let mut acc: u64 = 0;
    let mut i: usize = LEN_BYTES;
    proof {
        reveal_with_fuel(pow256, 9);
    }
    while i > 0
        invariant
            i <= LEN_BYTES,
            pos + LEN_BYTES <= b@.len(),
            len == b@.len(),
            acc as nat == le_value(b@.subrange(pos + i, pos + LEN_BYTES)),
            acc < pow256((LEN_BYTES - i) as nat),
            pow256(7) == 0x100_0000_0000_0000,
        decreases i,
    {
        let byte = b[pos + i - 1];
        let ghost p = pow256((LEN_BYTES - i) as nat);
        assert(p <= pow256(7)) by {
            reveal_with_fuel(pow256, 9);
        }
        assert(acc * 256 + byte < 256 * p) by (nonlinear_arith)
            requires
                acc < p,
                byte < 256,
        ;
        assert(256 * p <= 0x1_0000_0000_0000_0000) by (nonlinear_arith)
            requires
                p <= 0x100_0000_0000_0000,
        ;
        let ghost tail = b@.subrange(pos + i - 1, pos + LEN_BYTES);
        assert(tail.drop_first() =~= b@.subrange(pos + i, pos + LEN_BYTES));
        acc = acc * 256 + byte as u64;
        i = i - 1;
    }
    assert(b@.subrange(pos as int, pos + LEN_BYTES) =~= b@.subrange(pos + i, pos + LEN_BYTES));
    acc
}

/// Appends the encoding of the text `s` to `out`.
fn push_field(out: &mut Vec<u8>, s: &String)
    ensures
        final(out)@ == old(out)@ + encode_field(s@),
        encode_utf8(s@).len() <= usize::MAX,
{
    let bytes = s.as_str().as_bytes();
    let ghost start = out@;
    push_len(out, bytes.len() as u64);
    let ghost mid = out@;
    let mut i: usize = 0;
    while i < bytes.len()
        invariant
            i <= bytes@.len(),
            bytes@ == encode_utf8(s@),
            out@ == mid + bytes@.subrange(0, i as int),
        decreases bytes@.len() - i,
    {
        out.push(bytes[i]);
        i = i + 1;
        assert(out@ =~= mid + bytes@.subrange(0, i as int));
    }
    assert(bytes@.subrange(0, i as int) =~= bytes@);
    assert(out@ =~= start + encode_field(s@));
}

/// The stored form of `u`.
pub fn encode_user(u: &User) -> (r: Vec<u8>)
    ensures
        r@ == encode_record(u@),
        fields_fit(u@),
{
    let mut out: Vec<u8> = Vec::new();
    push_field(&mut out, &u.id);
    push_field(&mut out, &u.name);
    push_field(&mut out, &u.email);
    assert(out@ =~= encode_record(u@));
    out
}

/// Reads the field that starts at `pos`: its text and the position after it.
fn read_field(b: &[u8], pos: usize) -> (r: Option<(String, usize)>)
    requires
        pos <= b@.len(),
    ensures
        match parse_field(b@.subrange(pos as int, b@.len() as int)) {
            None => r is None,
            Some((s, rest)) => r matches Some((t, next)) && t@ == s && next <= b@.len() && rest
                == b@.subrange(next as int, b@.len() as int),
        },
{
    let ghost tail = b@.subrange(pos as int, b@.len() as int);
    if b.len() - pos < LEN_BYTES {
        return None;
    }
    let n = read_len(b, pos);
    assert(tail.subrange(0, LEN_BYTES as int) =~= b@.subrange(pos as int, pos + LEN_BYTES));
    if n > (b.len() - pos - LEN_BYTES) as u64 {
        return None;
    }
    let n = n as usize;
    let start = pos + LEN_BYTES;
    let mut body: Vec<u8> = Vec::new();
    let mut i: usize = 0;
    while i < n
        invariant
            i <= n,
            start + n <= b@.len(),
            b.len() == b@.len(),
            body@ == b@.subrange(start as int, start + i),
        decreases n - i,
    {
        body.push(b[start + i]);
        i = i + 1;
        assert(body@ =~= b@.subrange(start as int, start + i));
    }
    assert(tail.subrange(LEN_BYTES as int, LEN_BYTES + n) =~= body@);
    assert(tail.subrange(LEN_BYTES + n, tail.len() as int) =~= b@.subrange(
        start + n,
        b@.len() as int,
    ));
    match string_from_utf8(body) {
        None => None,
        Some(s) => Some((s, start + n)),
    }
}

/// The user that the stored bytes `b` hold, or `None` where they are not the
/// encoding of a user.
pub fn decode_user(b: &[u8]) -> (r: Option<User>)
    ensures
        match parse_record(b@) {
            None => r is None,
            Some(v) => r matches Some(u) && u@ == v,
        },
{
    assert(b@.subrange(0, b@.len() as int) =~= b@);
    let (id, p1) = match read_field(b, 0) {
        None => return None,
        Some(f) => f,
    };
    let (name, p2) = match read_field(b, p1) {
        None => return None,
        Some(f) => f,
    };
    let (email, p3) = match read_field(b, p2) {
        None => return None,
        Some(f) => f,
    };
    if p3 != b.len() {
        return None;
    }
    Some(User { id, name, email })
}

} // verus!

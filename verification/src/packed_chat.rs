//! The compact fixed-layout peer reference used by the session layer: a type
//! byte, a length byte, a little-endian 64-bit id and an optional
//! little-endian 64-bit access hash, with a hexadecimal string form.

use vstd::prelude::*;

verus! {

use vstd::arithmetic::power::pow;
use vstd::string::StringSliceAdditionalSpecFns;

/// The value of a little-endian byte string as an unbounded natural number.
pub open spec fn le_val(s: Seq<u8>) -> nat
    decreases s.len(),
{
    if s.len() == 0 {
        0
    } else {
        s[0] as nat + 256 * le_val(s.skip(1))
    }
}

/// The `k`-byte little-endian encoding of `n % pow(256, k)`.
pub open spec fn le_bytes(n: nat, k: nat) -> Seq<u8>
    decreases k,
{
    if k == 0 {
        Seq::empty()
    } else {
        seq![(n % 256) as u8] + le_bytes(n / 256, (k - 1) as nat)
    }
}

pub proof fn lemma_le_bytes_len(n: nat, k: nat)
    ensures
        le_bytes(n, k).len() == k,
    decreases k,
{
    if k > 0 {
        lemma_le_bytes_len(n / 256, (k - 1) as nat);
    }
}

pub proof fn lemma_le_val_bound(s: Seq<u8>)
    ensures
        le_val(s) < pow(256, s.len()),
    decreases s.len(),
{
    if s.len() == 0 {
        vstd::arithmetic::power::lemma_pow0(256);
    } else {
        lemma_le_val_bound(s.skip(1));
        assert(pow(256, s.len()) == 256 * pow(256, (s.len() - 1) as nat)) by {
            vstd::arithmetic::power::lemma_pow_adds(256, 1, (s.len() - 1) as nat);
            vstd::arithmetic::power::lemma_pow1(256);
        }
        assert(256 * le_val(s.skip(1)) + 256 <= 256 * pow(256, (s.len() - 1) as nat)) by {
            vstd::arithmetic::mul::lemma_mul_inequality(
                le_val(s.skip(1)) + 1 as int,
                pow(256, (s.len() - 1) as nat) as int,
                256int,
            );
        }
    }
}

pub proof fn lemma_le_bytes_val(n: nat, k: nat)
    requires
        n < pow(256, k),
    ensures
        le_val(le_bytes(n, k)) == n,
    decreases k,
{
    if k == 0 {
        vstd::arithmetic::power::lemma_pow0(256);
    } else {
        let s = seq![(n % 256) as u8] + le_bytes(n / 256, (k - 1) as nat);
        assert(s.skip(1) =~= le_bytes(n / 256, (k - 1) as nat));
        assert(n / 256 < pow(256, (k - 1) as nat)) by {
            vstd::arithmetic::power::lemma_pow_adds(256, 1, (k - 1) as nat);
            vstd::arithmetic::power::lemma_pow1(256);
            vstd::arithmetic::div_mod::lemma_multiply_divide_lt(
                n as int,
                256,
                pow(256, (k - 1) as nat),
            );
        }
        lemma_le_bytes_val(n / 256, (k - 1) as nat);
        vstd::arithmetic::div_mod::lemma_fundamental_div_mod(n as int, 256);
    }
}

/// The unsigned 64-bit value with the same two's-complement bits as `x`.
pub open spec fn i64_as_u64_val(x: i64) -> nat {
    if x >= 0 {
        x as nat
    } else {
        (x + 0x1_0000_0000_0000_0000) as nat
    }
}

/// The signed 64-bit value with the same two's-complement bits as `n`.
pub open spec fn u64_val_as_i64(n: nat) -> i64
    recommends
        n < 0x1_0000_0000_0000_0000,
{
    if n < 0x8000_0000_0000_0000 {
        n as i64
    } else {
        (n - 0x1_0000_0000_0000_0000) as i64
    }
}

pub proof fn lemma_i64_u64_roundtrip(x: i64)
    ensures
        i64_as_u64_val(x) < 0x1_0000_0000_0000_0000,
        u64_val_as_i64(i64_as_u64_val(x)) == x,
{
}

fn i64_to_u64(x: i64) -> (r: u64)
    ensures
        r as nat == i64_as_u64_val(x),
{
    if x >= 0 {
        x as u64
    } else {
        let wide: i128 = x as i128 + 0x1_0000_0000_0000_0000;
        wide as u64
    }
}

fn u64_to_i64(n: u64) -> (r: i64)
    ensures
        r == u64_val_as_i64(n as nat),
{
    if n < 0x8000_0000_0000_0000 {
        n as i64
    } else {
        let wide: i128 = n as i128 - 0x1_0000_0000_0000_0000;
        wide as i64
    }
}

/// The eight-byte little-endian encoding of `x`.
fn u64_le8(x: u64) -> (r: Vec<u8>)
    ensures
        r@ == le_bytes(x as nat, 8),
        r@.len() == 8,
{
    proof {
        lemma_le_bytes_len(x as nat, 8);
    }
    let mut out: Vec<u8> = Vec::new();
    let mut cur: u64 = x;
    let mut i: usize = 0;
    proof {
        assert(Seq::<u8>::empty() + le_bytes(x as nat, 8) =~= le_bytes(x as nat, 8));
    }
    while i < 8
        invariant
            i <= 8,
            out@.len() == i,
            le_bytes(x as nat, 8) =~= out@ + le_bytes(cur as nat, (8 - i) as nat),
        decreases 8 - i,
    {
        let b: u8 = (cur % 256) as u8;
        proof {
            let rest = le_bytes(cur as nat, (8 - i) as nat);
            assert(rest =~= seq![(cur as nat % 256) as u8] + le_bytes(
                cur as nat / 256,
                (8 - i - 1) as nat,
            ));
            assert(out@ + rest =~= out@.push(b) + le_bytes(cur as nat / 256, (8 - i - 1) as nat));
        }
        out.push(b);
        cur = cur / 256;
        i += 1;
    }
    proof {
        assert(le_bytes(cur as nat, 0) =~= Seq::<u8>::empty());
        assert(out@ + Seq::<u8>::empty() =~= out@);
    }
    out
}

/// The value of the eight bytes of `b` starting at `start`, little-endian.
fn u64_from_le8(b: &Vec<u8>, start: usize) -> (r: u64)
    requires
        start + 8 <= b@.len(),
    ensures
        r as nat == le_val(b@.subrange(start as int, start + 8)),
{
    let mut v: u64 = 0;
    let mut j: usize = 8;
    let len = b.len();
    proof {
        assert(b@.subrange(start + 8, start + 8) =~= Seq::<u8>::empty());
        vstd::arithmetic::power::lemma_pow0(256);
    }
    while j > 0
        invariant
            j <= 8,
            start + 8 <= b@.len(),
            b@.len() == len,
            v as nat == le_val(b@.subrange(start + j, start + 8)),
            v < pow(256, (8 - j) as nat),
        decreases j,
    {
        proof {
            let s = b@.subrange(start + j - 1, start + 8);
            assert(s.skip(1) =~= b@.subrange(start + j, start + 8));
            assert(le_val(s) == s[0] as nat + 256 * le_val(s.skip(1)));
            assert(s[0] == b@[start + j - 1]);
            vstd::arithmetic::power::lemma_pow_adds(256, 1, (8 - j) as nat);
            vstd::arithmetic::power::lemma_pow1(256);
            assert(256 * (v as nat) + 256 <= 256 * pow(256, (8 - j) as nat)) by {
                vstd::arithmetic::mul::lemma_mul_inequality(
                    v as nat + 1 as int,
                    pow(256, (8 - j) as nat) as int,
                    256int,
                );
            }
            assert(pow(256, 8) <= 0x1_0000_0000_0000_0000) by {
                vstd::arithmetic::power::lemma_pow_increases(256, (9 - j) as nat, 8);
                reveal_with_fuel(vstd::arithmetic::power::pow, 9);
            }
            vstd::arithmetic::power::lemma_pow_increases(256, (9 - j) as nat, 8);
        }
        v = v * 256 + (b[start + j - 1] as u64);
        j -= 1;
    }
    proof {
        assert(b@.subrange(start as int, start + 8) =~= b@.subrange(start + 0, start + 8));
    }
    v
}

/// The kind of peer a packed reference names.
#[derive(Clone, Copy, Debug, PartialEq, Eq, PartialOrd, Ord, Hash, Structural)]
pub enum PackedType {
    User,
    Bot,
    Chat,
    Megagroup,
    Broadcast,
    Gigagroup,
}

/// The tag byte of each peer kind. The bit pattern mirrors the wire protocol:
/// one bit each for user, chat and channel peers.
pub open spec fn spec_type_byte(t: PackedType) -> u8 {
    match t {
        PackedType::User => 0x02,
        PackedType::Bot => 0x03,
        PackedType::Chat => 0x04,
        PackedType::Megagroup => 0x28,
        PackedType::Broadcast => 0x30,
        PackedType::Gigagroup => 0x38,
    }
}

/// The peer kind a tag byte names, if any.
pub open spec fn spec_byte_type(b: u8) -> Option<PackedType> {
    if b == 0x02 {
        Some(PackedType::User)
    } else if b == 0x03 {
        Some(PackedType::Bot)
    } else if b == 0x04 {
        Some(PackedType::Chat)
    } else if b == 0x28 {
        Some(PackedType::Megagroup)
    } else if b == 0x30 {
        Some(PackedType::Broadcast)
    } else if b == 0x38 {
        Some(PackedType::Gigagroup)
    } else {
        None
    }
}

fn type_byte(t: PackedType) -> (r: u8)
    ensures
        r == spec_type_byte(t),
{
    match t {
        PackedType::User => 0x02,
        PackedType::Bot => 0x03,
        PackedType::Chat => 0x04,
        PackedType::Megagroup => 0x28,
        PackedType::Broadcast => 0x30,
        PackedType::Gigagroup => 0x38,
    }
}

fn byte_type(b: u8) -> (r: Option<PackedType>)
    ensures
        r == spec_byte_type(b),
{
    if b == 0x02 {
        Some(PackedType::User)
    } else if b == 0x03 {
        Some(PackedType::Bot)
    } else if b == 0x04 {
        Some(PackedType::Chat)
    } else if b == 0x28 {
        Some(PackedType::Megagroup)
    } else if b == 0x30 {
        Some(PackedType::Broadcast)
    } else if b == 0x38 {
        Some(PackedType::Gigagroup)
    } else {
        None
    }
}

/// A packed chat: a peer kind, its id, and an optional access hash.
#[derive(Clone, Copy, Debug, PartialEq, Eq, PartialOrd, Ord, Hash, Structural)]
pub struct PackedChat {
    pub ty: PackedType,
    pub id: i64,
    pub access_hash: Option<i64>,
}

/// The serialized form: tag byte, total length (10 or 18), the id in eight
/// little-endian bytes, and, when present, the access hash in eight more.
pub open spec fn spec_chat_bytes(c: PackedChat) -> Seq<u8> {
    match c.access_hash {
        Some(h) => seq![spec_type_byte(c.ty), 18u8] + le_bytes(i64_as_u64_val(c.id), 8) + le_bytes(
            i64_as_u64_val(h),
            8,
        ),
        None => seq![spec_type_byte(c.ty), 10u8] + le_bytes(i64_as_u64_val(c.id), 8),
    }
}

/// The packed chat a buffer deserializes to, if it is well-formed: the
/// length must be 10 or 18 and must be repeated in the second byte, and the
/// tag byte must name a peer kind.
pub open spec fn spec_parse_chat(buf: Seq<u8>) -> Option<PackedChat> {
    if buf.len() != 10 && buf.len() != 18 {
        None
    } else if buf[1] as nat != buf.len() {
        None
    } else {
        match spec_byte_type(buf[0]) {
            None => None,
            Some(ty) => Some(
                PackedChat {
                    ty,
                    id: u64_val_as_i64(le_val(buf.subrange(2, 10))),
                    access_hash: if buf.len() == 18 {
                        Some(u64_val_as_i64(le_val(buf.subrange(10, 18))))
                    } else {
                        None
                    },
                },
            ),
        }
    }
}

impl PackedChat {
    /// Serialize the packed chat into a new buffer and return its bytes.
    pub fn to_bytes(&self) -> (r: Vec<u8>)
        ensures
            r@ == spec_chat_bytes(*self),
            r@.len() == if self.access_hash is Some {
                18int
            } else {
                10int
            },
    {
        let mut res: Vec<u8> = Vec::new();
        res.push(type_byte(self.ty));
        match self.access_hash {
            Some(_) => res.push(18u8),
            None => res.push(10u8),
        }
        let id_bytes = u64_le8(i64_to_u64(self.id));
        let mut k: usize = 0;
        let ghost head = res@;
        while k < id_bytes.len()
            invariant
                k <= id_bytes@.len(),
                res@ =~= head + id_bytes@.take(k as int),
            decreases id_bytes@.len() - k,
        {
            res.push(id_bytes[k]);
            proof {
                assert((head + id_bytes@.take(k as int)).push(id_bytes@[k as int]) =~= head
                    + id_bytes@.take(k + 1));
            }
            k += 1;
        }
        proof {
            assert(head + id_bytes@.take(id_bytes@.len() as int) =~= head + id_bytes@);
        }
        match self.access_hash {
            None => {
                proof {
                    assert(res@ =~= spec_chat_bytes(*self));
                }
                res
            },
            Some(h) => {
                let hash_bytes = u64_le8(i64_to_u64(h));
                let mut k2: usize = 0;
                let ghost head2 = res@;
                while k2 < hash_bytes.len()
                    invariant
                        k2 <= hash_bytes@.len(),
                        res@ =~= head2 + hash_bytes@.take(k2 as int),
                    decreases hash_bytes@.len() - k2,
                {
                    res.push(hash_bytes[k2]);
                    proof {
                        assert((head2 + hash_bytes@.take(k2 as int)).push(
                            hash_bytes@[k2 as int],
                        ) =~= head2 + hash_bytes@.take(k2 + 1));
                    }
                    k2 += 1;
                }
                proof {
                    assert(head2 + hash_bytes@.take(hash_bytes@.len() as int) =~= head2
                        + hash_bytes@);
                    assert(res@ =~= spec_chat_bytes(*self));
                }
                res
            },
        }
    }

    /// Deserialize the buffer into a packed chat.
    pub fn from_bytes(buf: &Vec<u8>) -> (r: Result<Self, ()>)
        ensures
            r matches Ok(c) ==> spec_parse_chat(buf@) == Some(c),
            r is Err <==> spec_parse_chat(buf@) is None,
    {
        if buf.len() != 10 && buf.len() != 18 {
            return Err(());
        }
        if buf[1] as usize != buf.len() {
            return Err(());
        }
        let ty = match byte_type(buf[0]) {
            Some(ty) => ty,
            None => {
                return Err(());
            },
        };
        let id = u64_to_i64(u64_from_le8(buf, 2));
        let access_hash = if buf.len() == 18 {
            Some(u64_to_i64(u64_from_le8(buf, 10)))
        } else {
            None
        };
        Ok(PackedChat { ty, id, access_hash })
    }

    pub fn is_user(&self) -> (r: bool)
        ensures
            r == (self.ty is User || self.ty is Bot),
    {
        matches!(self.ty, PackedType::User | PackedType::Bot)
    }

    pub fn is_chat(&self) -> (r: bool)
        ensures
            r == (self.ty is Chat),
    {
        matches!(self.ty, PackedType::Chat)
    }

    pub fn is_channel(&self) -> (r: bool)
        ensures
            r == (self.ty is Megagroup || self.ty is Broadcast || self.ty is Gigagroup),
    {
        matches!(self.ty, PackedType::Megagroup | PackedType::Broadcast | PackedType::Gigagroup)
    }

    pub fn try_to_chat_id(&self) -> (r: Option<i64>)
        ensures
            r == if self.ty is Chat {
                Some(self.id)
            } else {
                None::<i64>
            },
    {
        match self.ty {
            PackedType::Chat => Some(self.id),
            _ => None,
        }
    }
}

/// The lowercase ASCII hexadecimal digit for a value below 16.
pub open spec fn spec_hex_digit(n: u8) -> u8
    recommends
        n < 16,
{
    if n < 10 {
        (48 + n) as u8
    } else {
        (87 + n) as u8
    }
}

/// The lowercase hexadecimal spelling of a byte string, two digits a byte.
pub open spec fn spec_hex_bytes(s: Seq<u8>) -> Seq<u8>
    decreases s.len(),
{
    if s.len() == 0 {
        Seq::empty()
    } else {
        seq![spec_hex_digit(s[0] / 16), spec_hex_digit(s[0] % 16)] + spec_hex_bytes(s.skip(1))
    }
}

/// The value of an ASCII hexadecimal digit, either case, if it is one.
pub open spec fn spec_hex_digit_val(b: u8) -> Option<u8> {
    if 48 <= b && b <= 57 {
        Some((b - 48) as u8)
    } else if 97 <= b && b <= 102 {
        Some((b - 87) as u8)
    } else if 65 <= b && b <= 70 {
        Some((b - 55) as u8)
    } else {
        None
    }
}

/// The byte string an even-length hexadecimal spelling decodes to, if every
/// character is a hexadecimal digit.
pub open spec fn spec_parse_hex(s: Seq<u8>) -> Option<Seq<u8>>
    decreases s.len(),
{
    if s.len() % 2 == 1 {
        None
    } else if s.len() == 0 {
        Some(Seq::empty())
    } else {
        match (spec_hex_digit_val(s[0]), spec_hex_digit_val(s[1])) {
            (Some(h), Some(l)) => match spec_parse_hex(s.skip(2)) {
                Some(rest) => Some(seq![(h * 16 + l) as u8] + rest),
                None => None,
            },
            _ => None,
        }
    }
}

/// The characters of an ASCII byte string.
pub open spec fn spec_ascii_chars(s: Seq<u8>) -> Seq<char> {
    Seq::new(s.len(), |i: int| s[i] as char)
}

/// Relies on `String::from_utf8`: the returned string's UTF-8 bytes are
/// exactly the input bytes, and an ASCII byte is the single-byte UTF-8
/// encoding of the character of the same value. The precondition keeps the
/// input ASCII, so the conversion cannot fail.
#[verifier::external_body]
fn string_from_ascii(bytes: Vec<u8>) -> (r: String)
    requires
        forall|i: int| 0 <= i < bytes@.len() ==> bytes@[i] < 128,
    ensures
        r@ == spec_ascii_chars(bytes@),
{
    String::from_utf8(bytes).unwrap()
}

proof fn lemma_hex_bytes_push(s: Seq<u8>, x: u8)
    ensures
        spec_hex_bytes(s.push(x)) == spec_hex_bytes(s) + seq![
            spec_hex_digit(x / 16),
            spec_hex_digit(x % 16),
        ],
    decreases s.len(),
{
    let pair = seq![spec_hex_digit(x / 16), spec_hex_digit(x % 16)];
    if s.len() == 0 {
        let single = seq![x];
        assert(s.push(x) =~= single);
        assert(single[0] == x);
        assert(single.skip(1) =~= Seq::<u8>::empty());
        assert(spec_hex_bytes(Seq::<u8>::empty()) == Seq::<u8>::empty());
        assert(spec_hex_bytes(single) == pair + spec_hex_bytes(single.skip(1)));
        assert(pair + Seq::<u8>::empty() =~= pair);
        assert(spec_hex_bytes(s) + pair =~= pair);
    } else {
        assert(s.push(x).skip(1) =~= s.skip(1).push(x));
        lemma_hex_bytes_push(s.skip(1), x);
        assert(spec_hex_bytes(s.push(x)) =~= spec_hex_bytes(s) + pair);
    }
}

proof fn lemma_hex_bytes_ascii(s: Seq<u8>)
    ensures
        forall|i: int| 0 <= i < spec_hex_bytes(s).len() ==> spec_hex_bytes(s)[i] < 128,
        spec_hex_bytes(s).len() == 2 * s.len(),
    decreases s.len(),
{
    if s.len() > 0 {
        lemma_hex_bytes_ascii(s.skip(1));
    }
}

fn hex_digit(n: u8) -> (r: u8)
    requires
        n < 16,
    ensures
        r == spec_hex_digit(n),
{
    if n < 10 {
        48 + n
    } else {
        87 + n
    }
}

fn hex_digit_val(b: u8) -> (r: Option<u8>)
    ensures
        r == spec_hex_digit_val(b),
{
    if 48 <= b && b <= 57 {
        Some(b - 48)
    } else if 97 <= b && b <= 102 {
        Some(b - 87)
    } else if 65 <= b && b <= 70 {
        Some(b - 55)
    } else {
        None
    }
}

impl PackedChat {
    /// Serialize the packed chat as a lowercase hexadecimal string.
    pub fn to_hex(&self) -> (r: String)
        ensures
            r@ == spec_ascii_chars(spec_hex_bytes(spec_chat_bytes(*self))),
    {
        let bytes = self.to_bytes();
        let mut out: Vec<u8> = Vec::new();
        let mut i: usize = 0;
        proof {
            assert(bytes@.take(0) =~= Seq::<u8>::empty());
        }
        while i < bytes.len()
            invariant
                i <= bytes@.len(),
                out@ == spec_hex_bytes(bytes@.take(i as int)),
            decreases bytes@.len() - i,
        {
            let b = bytes[i];
            out.push(hex_digit(b / 16));
            out.push(hex_digit(b % 16));
            proof {
                assert(bytes@.take(i + 1) =~= bytes@.take(i as int).push(bytes@[i as int]));
                lemma_hex_bytes_push(bytes@.take(i as int), bytes@[i as int]);
                assert(out@ =~= spec_hex_bytes(bytes@.take(i as int)) + seq![
                    spec_hex_digit(b / 16),
                    spec_hex_digit(b % 16),
                ]);
            }
            i += 1;
        }
        proof {
            assert(bytes@.take(bytes@.len() as int) =~= bytes@);
            lemma_hex_bytes_ascii(bytes@);
        }
        string_from_ascii(out)
    }

    /// Deserialize the hexadecimal string into a packed chat.
    pub fn from_hex(hex: &str) -> (r: Result<Self, ()>)
        ensures
            r matches Ok(c) ==> spec_parse_hex(hex.spec_bytes()) matches Some(bs)
                && spec_parse_chat(bs) == Some(c),
            r is Err <==> (spec_parse_hex(hex.spec_bytes()) is None || spec_parse_chat(
                spec_parse_hex(hex.spec_bytes())->0,
            ) is None),
    {
        let hb: Vec<u8> = vstd::slice::slice_to_vec(hex.as_bytes());
        if hb.len() % 2 != 0 {
            proof {
                assert(spec_parse_hex(hb@) is None);
            }
            return Err(());
        }
        let mut bytes: Vec<u8> = Vec::new();
        let mut i: usize = 0;
        proof {
            assert(hb@.skip(0) =~= hb@);
            match spec_parse_hex(hb@) {
                Some(rest) => {
                    assert(bytes@ + rest =~= rest);
                },
                None => {},
            }
        }
        while i < hb.len()
            invariant
                i <= hb@.len(),
                i % 2 == 0,
                hb@.len() % 2 == 0,
                hb@ == hex.spec_bytes(),
                spec_parse_hex(hb@) == match spec_parse_hex(hb@.skip(i as int)) {
                    Some(rest) => Some(bytes@ + rest),
                    None => None::<Seq<u8>>,
                },
            decreases hb@.len() - i,
        {
            let ghost tail = hb@.skip(i as int);
            proof {
                assert(tail.len() == hb@.len() - i);
                assert(tail.len() % 2 == 0);
                assert(tail[0] == hb@[i as int]);
                assert(tail[1] == hb@[i + 1]);
                assert(tail.skip(2) =~= hb@.skip(i + 2));
            }
            let d0 = hex_digit_val(hb[i]);
            let d1 = hex_digit_val(hb[i + 1]);
            if d0.is_none() || d1.is_none() {
                proof {
                    assert(spec_parse_hex(tail) is None);
                }
                return Err(());
            }
            let h = d0.unwrap();
            let l = d1.unwrap();
            bytes.push(h * 16 + l);
            proof {
                match spec_parse_hex(hb@.skip(i + 2)) {
                    Some(rest) => {
                        assert((bytes@ + rest) =~= (bytes@.drop_last() + (seq![
                            (h * 16 + l) as u8,
                        ] + rest)));
                    },
                    None => {},
                }
            }
            i += 2;
        }
        proof {
            assert(hb@.skip(hb@.len() as int) =~= Seq::<u8>::empty());
            assert(bytes@ + Seq::<u8>::empty() =~= bytes@);
        }
        Self::from_bytes(&bytes)
    }
}

/// Decoding the hexadecimal spelling of a byte string returns the original
/// byte string.
pub proof fn lemma_hex_roundtrip(s: Seq<u8>)
    ensures
        spec_parse_hex(spec_hex_bytes(s)) == Some(s),
    decreases s.len(),
{
    lemma_hex_bytes_ascii(s);
    if s.len() == 0 {
        assert(spec_hex_bytes(s) =~= Seq::<u8>::empty());
    } else {
        let hs = spec_hex_bytes(s);
        let b = s[0];
        lemma_hex_roundtrip(s.skip(1));
        assert(hs.skip(2) =~= spec_hex_bytes(s.skip(1)));
        assert(spec_hex_digit_val(spec_hex_digit(b / 16)) == Some((b / 16) as u8));
        assert(spec_hex_digit_val(spec_hex_digit(b % 16)) == Some((b % 16) as u8));
        assert(((b / 16) * 16 + b % 16) as u8 == b);
        assert(seq![b] + s.skip(1) =~= s);
    }
}

/// Serializing a packed chat and deserializing the bytes returns the
/// original value.
pub proof fn lemma_chat_bytes_roundtrip(c: PackedChat)
    ensures
        spec_parse_chat(spec_chat_bytes(c)) == Some(c),
{
    let bs = spec_chat_bytes(c);
    lemma_le_bytes_len(i64_as_u64_val(c.id), 8);
    lemma_i64_u64_roundtrip(c.id);
    assert(pow(256, 8) == 0x1_0000_0000_0000_0000) by {
        reveal_with_fuel(vstd::arithmetic::power::pow, 9);
    }
    lemma_le_bytes_val(i64_as_u64_val(c.id), 8);
    match c.access_hash {
        Some(h) => {
            lemma_le_bytes_len(i64_as_u64_val(h), 8);
            lemma_i64_u64_roundtrip(h);
            lemma_le_bytes_val(i64_as_u64_val(h), 8);
            assert(bs.subrange(2, 10) =~= le_bytes(i64_as_u64_val(c.id), 8));
            assert(bs.subrange(10, 18) =~= le_bytes(i64_as_u64_val(h), 8));
        },
        None => {
            assert(bs.subrange(2, 10) =~= le_bytes(i64_as_u64_val(c.id), 8));
        },
    }
}

} // verus!

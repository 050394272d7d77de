//! Little-endian integers, SCALE compact integers, byte strings and lists of
//! byte strings as they appear on the wire: their specifications, readers
//! proved against them, and the codec's encoders behind trusted wrappers.

use vstd::prelude::*;

verus! {

/// `256^n`.
pub open spec fn pow256(n: nat) -> nat
    decreases n,
{
    if n == 0 {
        1
    } else {
        256 * pow256((n - 1) as nat)
    }
}

/// The number that the bytes `s` denote, least significant byte first.
pub open spec fn le_value(s: Seq<u8>) -> nat
    decreases s.len(),
{
    if s.len() == 0 {
        0
    } else {
        s[0] as nat + 256 * le_value(s.drop_first())
    }
}

/// The `n` least significant bytes of `v`, least significant first.
pub open spec fn le_bytes(v: nat, n: nat) -> Seq<u8>
    decreases n,
{
    if n == 0 {
        Seq::empty()
    } else {
        seq![(v % 256) as u8] + le_bytes(v / 256, (n - 1) as nat)
    }
}

pub proof fn lemma_pow256_positive(n: nat)
    ensures
        pow256(n) >= 1,
    decreases n,
{
    if n > 0 {
        lemma_pow256_positive((n - 1) as nat);
    }
}

pub proof fn lemma_pow256_monotone(a: nat, b: nat)
    requires
        a <= b,
    ensures
        pow256(a) <= pow256(b),
    decreases b,
{
    if a < b {
        lemma_pow256_monotone(a, (b - 1) as nat);
        lemma_pow256_positive((b - 1) as nat);
    }
}

pub proof fn lemma_pow256_values()
    ensures
        pow256(2) == 0x1_0000,
        pow256(4) == 0x1_0000_0000,
        pow256(16) == 0x1_0000_0000_0000_0000_0000_0000_0000_0000,
{
    reveal_with_fuel(pow256, 17);
}

pub proof fn lemma_le_bytes_len(v: nat, n: nat)
    ensures
        le_bytes(v, n).len() == n,
    decreases n,
{
    if n > 0 {
        lemma_le_bytes_len(v / 256, (n - 1) as nat);
    }
}

pub proof fn lemma_le_value_bound(s: Seq<u8>)
    ensures
        le_value(s) < pow256(s.len()),
    decreases s.len(),
{
    if s.len() > 0 {
        lemma_le_value_bound(s.drop_first());
        let r = le_value(s.drop_first());
        let p = pow256((s.len() - 1) as nat);
        assert(s[0] as nat + 256 * r < 256 * p) by (nonlinear_arith)
            requires
                r < p,
                s[0] < 256,
        ;
    }
}

/// Writing `n` bytes of a number below `256^n` and reading them back gives the number.
pub proof fn lemma_le_value_of_bytes(v: nat, n: nat)
    requires
        v < pow256(n),
    ensures
        le_value(le_bytes(v, n)) == v,
    decreases n,
{
    if n > 0 {
        let q = v / 256;
        let p = pow256((n - 1) as nat);
        assert(q < p) by (nonlinear_arith)
            requires
                v < 256 * p,
                q == v / 256,
        ;
        lemma_le_value_of_bytes(q, (n - 1) as nat);
        let s = le_bytes(v, n);
        assert(s.drop_first() =~= le_bytes(q, (n - 1) as nat));
    }
}

/// Reading bytes as a number and writing it back gives the same bytes.
pub proof fn lemma_le_bytes_of_value(s: Seq<u8>)
    ensures
        le_bytes(le_value(s), s.len()) == s,
    decreases s.len(),
{
    if s.len() > 0 {
        lemma_le_bytes_of_value(s.drop_first());
        let r = le_value(s.drop_first());
        let v = le_value(s);
        assert(v % 256 == s[0] as nat && v / 256 == r) by (nonlinear_arith)
            requires
                v == s[0] as nat + 256 * r,
                s[0] < 256,
        ;
        assert(le_bytes(v, s.len()) =~= s);
    }
}

/// Reads the `n` bytes of `s` at `pos` as a little-endian number.
pub fn read_le(s: &[u8], pos: usize, n: usize) -> (v: u128)
    requires
        n <= 16,
        pos + n <= s@.len(),
    ensures
        v as nat == le_value(s@.subrange(pos as int, pos + n)),
{
    let mut acc: u128 = 0;
    let mut i: usize = n;
    while i > 0
        invariant
            i <= n <= 16,
            pos + n <= s@.len(),
            s@.len() == s.len(),
            acc as nat == le_value(s@.subrange(pos + i, pos + n)),
        decreases i,
    {
        let ghost tail = s@.subrange(pos + i, pos + n);
        let ghost whole = s@.subrange(pos + i - 1, pos + n);
        proof {
            assert(whole.drop_first() =~= tail);
            assert(whole[0] == s@[pos + i - 1]);
            lemma_le_value_bound(whole);
            lemma_pow256_monotone(whole.len(), 16);
            lemma_pow256_values();
        }
        let b = s[pos + i - 1];
        acc = acc * 256 + b as u128;
        i = i - 1;
    }
    acc
}

/// The SCALE compact encoding of a 32-bit number: one byte below `2^6`, two
/// bytes below `2^14`, four bytes below `2^30`, otherwise the byte `3`
/// followed by the number on four bytes. The two low bits of the first byte
/// tell the modes apart.
pub open spec fn spec_compact_encode(v: nat) -> Seq<u8> {
    if v < 0x40 {
        seq![(v * 4) as u8]
    } else if v < 0x4000 {
        le_bytes(v * 4 + 1, 2)
    } else if v < 0x4000_0000 {
        le_bytes(v * 4 + 2, 4)
    } else {
        seq![3u8] + le_bytes(v, 4)
    }
}

/// Reads a SCALE compact 32-bit number at the start of `s`: the number and
/// the count of bytes it takes. A number written in a longer mode than it
/// needs is refused, as is a first byte that announces more than 32 bits.
pub open spec fn spec_compact_decode(s: Seq<u8>) -> Option<(nat, nat)> {
    if s.len() < 1 {
        None
    } else if s[0] % 4 == 0 {
        Some(((s[0] / 4) as nat, 1))
    } else if s[0] % 4 == 1 {
        if s.len() < 2 {
            None
        } else {
            let x = le_value(s.take(2)) / 4;
            if 0x40 <= x {
                Some((x, 2))
            } else {
                None
            }
        }
    } else if s[0] % 4 == 2 {
        if s.len() < 4 {
            None
        } else {
            let x = le_value(s.take(4)) / 4;
            if 0x4000 <= x {
                Some((x, 4))
            } else {
                None
            }
        }
    } else {
        if s[0] != 3 || s.len() < 5 {
            None
        } else {
            let x = le_value(s.subrange(1, 5));
            if 0x4000_0000 <= x {
                Some((x, 5))
            } else {
                None
            }
        }
    }
}

proof fn lemma_le_first_byte(w: nat, n: nat)
    requires
        n > 0,
    ensures
        le_bytes(w, n)[0] == (w % 256) as u8,
        (w % 256) % 4 == w % 4,
{
    assert((w % 256) % 4 == w % 4) by (nonlinear_arith);
}

proof fn lemma_le_value_mod4(t: Seq<u8>)
    requires
        t.len() > 0,
    ensures
        le_value(t) % 4 == (t[0] as nat) % 4,
{
    let r = le_value(t.drop_first());
    assert((t[0] as nat + 256 * r) % 4 == (t[0] as nat) % 4) by (nonlinear_arith);
}

pub proof fn lemma_compact_encode_len(v: nat)
    ensures
        1 <= spec_compact_encode(v).len() <= 5,
{
    lemma_le_bytes_len(v * 4 + 1, 2);
    lemma_le_bytes_len(v * 4 + 2, 4);
    lemma_le_bytes_len(v, 4);
}

/// Reading back the compact encoding of a 32-bit number, whatever follows
/// it, gives the number and the length of its encoding.
pub proof fn lemma_compact_roundtrip(v: nat, rest: Seq<u8>)
    requires
        v < 0x1_0000_0000,
    ensures
        spec_compact_decode(spec_compact_encode(v) + rest) == Some((v, spec_compact_encode(v).len())),
{
    let e = spec_compact_encode(v);
    let s = e + rest;
    lemma_pow256_values();
    lemma_compact_encode_len(v);
    if v < 0x40 {
        assert(s[0] == (v * 4) as u8);
    } else if v < 0x4000 {
        let w = v * 4 + 1;
        lemma_le_bytes_len(w, 2);
        lemma_le_first_byte(w, 2);
        lemma_le_value_of_bytes(w, 2);
        assert(s.take(2) =~= e);
        assert(w / 4 == v);
    } else if v < 0x4000_0000 {
        let w = v * 4 + 2;
        lemma_le_bytes_len(w, 4);
        lemma_le_first_byte(w, 4);
        lemma_le_value_of_bytes(w, 4);
        assert(s.take(4) =~= e);
        assert(w / 4 == v);
    } else {
        lemma_le_bytes_len(v, 4);
        lemma_le_value_of_bytes(v, 4);
        assert(s.subrange(1, 5) =~= le_bytes(v, 4));
    }
}

/// What the compact reader accepts is exactly the encoding of what it
/// returns: no 32-bit number has two accepted encodings.
pub proof fn lemma_compact_canonical(s: Seq<u8>)
    requires
        spec_compact_decode(s) is Some,
    ensures
        ({
            let (v, n) = spec_compact_decode(s).unwrap();
            &&& v < 0x1_0000_0000
            &&& n <= s.len()
            &&& s.take(n as int) == spec_compact_encode(v)
        }),
{
    lemma_pow256_values();
    let (v, n) = spec_compact_decode(s).unwrap();
    if s[0] % 4 == 0 {
        assert(s.take(1) =~= spec_compact_encode(v));
    } else if s[0] % 4 == 1 {
        let t = s.take(2);
        lemma_le_value_bound(t);
        lemma_le_value_mod4(t);
        lemma_le_bytes_of_value(t);
        let w = le_value(t);
        assert(w == v * 4 + 1);
    } else if s[0] % 4 == 2 {
        let t = s.take(4);
        lemma_le_value_bound(t);
        lemma_le_value_mod4(t);
        lemma_le_bytes_of_value(t);
        let w = le_value(t);
        assert(w == v * 4 + 2);
    } else {
        let u = s.subrange(1, 5);
        lemma_le_value_bound(u);
        lemma_le_bytes_of_value(u);
        assert(s.take(5) =~= seq![3u8] + u);
    }
}

/// Reads a compact number at `pos` in `s`: the number and the position
/// after it, or `None` where the spec reader refuses.
pub fn read_compact(s: &[u8], pos: usize) -> (r: Option<(u32, usize)>)
    requires
        pos <= s@.len(),
    ensures
        match spec_compact_decode(s@.skip(pos as int)) {
            None => r is None,
            Some((v, n)) => r matches Some((x, p)) && x == v && p == pos + n && pos + n <= s@.len(),
        },
{
    let ghost t = s@.skip(pos as int);
    proof {
        lemma_pow256_values();
        if spec_compact_decode(t) is Some {
            lemma_compact_canonical(t);
        }
    }
    if pos >= s.len() {
        return None;
    }
    let p = s[pos];
    assert(t[0] == p);
    if p % 4 == 0 {
        Some(((p / 4) as u32, pos + 1))
    } else if p % 4 == 1 {
        if s.len() - pos < 2 {
            return None;
        }
        let w = read_le(s, pos, 2);
        proof {
            assert(s@.subrange(pos as int, pos + 2) =~= t.take(2));
            lemma_le_value_bound(t.take(2));
        }
        let x = w / 4;
        if 0x40 <= x {
            Some((x as u32, pos + 2))
        } else {
            None
        }
    } else if p % 4 == 2 {
        if s.len() - pos < 4 {
            return None;
        }
        let w = read_le(s, pos, 4);
        proof {
            assert(s@.subrange(pos as int, pos + 4) =~= t.take(4));
            lemma_le_value_bound(t.take(4));
        }
        let x = w / 4;
        if 0x4000 <= x {
            Some((x as u32, pos + 4))
        } else {
            None
        }
    } else {
        if p != 3 || s.len() - pos < 5 {
            return None;
        }
        let x = read_le(s, pos + 1, 4);
        proof {
            assert(s@.subrange(pos + 1, pos + 5) =~= t.subrange(1, 5));
            lemma_le_value_bound(t.subrange(1, 5));
        }
        if 0x4000_0000 <= x {
            Some((x as u32, pos + 5))
        } else {
            None
        }
    }
}

/// A byte string on the wire: its length as a compact number, then its bytes.
pub open spec fn spec_encode_bytes(b: Seq<u8>) -> Seq<u8> {
    spec_compact_encode(b.len()) + b
}

/// Reads a byte string at the start of `s`: the bytes and the count of
/// input bytes taken; `None` where the length is refused or the input ends
/// before the announced bytes.
pub open spec fn spec_decode_bytes(s: Seq<u8>) -> Option<(Seq<u8>, nat)> {
    match spec_compact_decode(s) {
        None => None,
        Some((len, n)) => if n + len <= s.len() {
            Some((s.subrange(n as int, (n + len) as int), n + len))
        } else {
            None
        },
    }
}

/// The byte strings of `l`, each encoded, one after the other.
pub open spec fn spec_encode_byte_items(l: Seq<Seq<u8>>) -> Seq<u8>
    decreases l.len(),
{
    if l.len() == 0 {
        Seq::empty()
    } else {
        spec_encode_bytes(l[0]) + spec_encode_byte_items(l.drop_first())
    }
}

/// A list of byte strings on the wire: the count as a compact number, then
/// the byte strings.
pub open spec fn spec_encode_byte_list(l: Seq<Seq<u8>>) -> Seq<u8> {
    spec_compact_encode(l.len()) + spec_encode_byte_items(l)
}

/// Reads `count` byte strings one after the other at the start of `s`.
pub open spec fn spec_decode_byte_items(s: Seq<u8>, count: nat) -> Option<(Seq<Seq<u8>>, nat)>
    decreases count,
{
    if count == 0 {
        Some((Seq::empty(), 0))
    } else {
        match spec_decode_bytes(s) {
            None => None,
            Some((b, n)) => match spec_decode_byte_items(s.skip(n as int), (count - 1) as nat) {
                None => None,
                Some((rest, m)) => Some((seq![b] + rest, n + m)),
            },
        }
    }
}

/// Reads a list of byte strings at the start of `s`.
pub open spec fn spec_decode_byte_list(s: Seq<u8>) -> Option<(Seq<Seq<u8>>, nat)> {
    match spec_compact_decode(s) {
        None => None,
        Some((count, n)) => match spec_decode_byte_items(s.skip(n as int), count) {
            None => None,
            Some((l, m)) => Some((l, n + m)),
        },
    }
}

/// The byte strings held in a vector of byte vectors.
pub open spec fn byte_list_view(l: &Vec<Vec<u8>>) -> Seq<Seq<u8>> {
    l@.map_values(|v: Vec<u8>| v@)
}

/// Every length in the list, and the list's own length, fits the 32-bit
/// compact numbers that announce them.
pub open spec fn byte_list_wf(l: Seq<Seq<u8>>) -> bool {
    &&& l.len() < 0x1_0000_0000
    &&& forall|i: int| 0 <= i < l.len() ==> #[trigger] l[i].len() < 0x1_0000_0000
}

/// Prepends what was read before to what is read after.
pub open spec fn prepend_items(
    pre: Seq<Seq<u8>>,
    n: nat,
    r: Option<(Seq<Seq<u8>>, nat)>,
) -> Option<(Seq<Seq<u8>>, nat)> {
    match r {
        None => None,
        Some((l, m)) => Some((pre + l, n + m)),
    }
}

pub proof fn lemma_decode_bytes_roundtrip(b: Seq<u8>, rest: Seq<u8>)
    requires
        b.len() < 0x1_0000_0000,
    ensures
        spec_decode_bytes(spec_encode_bytes(b) + rest) == Some((b, spec_encode_bytes(b).len())),
{
    let c = spec_compact_encode(b.len());
    lemma_compact_roundtrip(b.len(), b + rest);
    assert(c + (b + rest) =~= spec_encode_bytes(b) + rest);
    assert((spec_encode_bytes(b) + rest).subrange(c.len() as int, (c.len() + b.len()) as int) =~= b);
}

pub proof fn lemma_decode_bytes_consumed(s: Seq<u8>)
    requires
        spec_decode_bytes(s) is Some,
    ensures
        spec_decode_bytes(s).unwrap().1 <= s.len(),
        spec_decode_bytes(s).unwrap().1 >= 1,
        s.take(spec_decode_bytes(s).unwrap().1 as int) == spec_encode_bytes(spec_decode_bytes(s).unwrap().0),
        spec_decode_bytes(s).unwrap().0.len() < 0x1_0000_0000,
{
    lemma_compact_canonical(s);
    let (len, n) = spec_compact_decode(s).unwrap();
    assert(s.take((n + len) as int) =~= s.take(n as int) + s.subrange(n as int, (n + len) as int));
}

pub proof fn lemma_decode_byte_items_roundtrip(l: Seq<Seq<u8>>, rest: Seq<u8>)
    requires
        forall|i: int| 0 <= i < l.len() ==> #[trigger] l[i].len() < 0x1_0000_0000,
    ensures
        spec_decode_byte_items(spec_encode_byte_items(l) + rest, l.len()) == Some((l, spec_encode_byte_items(l).len())),
    decreases l.len(),
{
    if l.len() > 0 {
        let e0 = spec_encode_bytes(l[0]);
        let tail = spec_encode_byte_items(l.drop_first());
        assert(l[0].len() < 0x1_0000_0000);
        lemma_decode_bytes_roundtrip(l[0], tail + rest);
        assert(e0 + (tail + rest) =~= spec_encode_byte_items(l) + rest);
        assert((spec_encode_byte_items(l) + rest).skip(e0.len() as int) =~= tail + rest);
        assert forall|i: int| 0 <= i < l.drop_first().len() implies #[trigger] l.drop_first()[i].len() < 0x1_0000_0000 by {
            assert(l.drop_first()[i] == l[i + 1]);
        }
        lemma_decode_byte_items_roundtrip(l.drop_first(), rest);
        assert(seq![l[0]] + l.drop_first() =~= l);
    }
}

pub proof fn lemma_decode_byte_items_consumed(s: Seq<u8>, count: nat)
    requires
        spec_decode_byte_items(s, count) is Some,
    ensures
        spec_decode_byte_items(s, count).unwrap().1 <= s.len(),
        spec_decode_byte_items(s, count).unwrap().0.len() == count,
        s.take(spec_decode_byte_items(s, count).unwrap().1 as int) == spec_encode_byte_items(spec_decode_byte_items(s, count).unwrap().0),
        forall|i: int| 0 <= i < count ==> #[trigger] spec_decode_byte_items(s, count).unwrap().0[i].len() < 0x1_0000_0000,
    decreases count,
{
    if count > 0 {
        let (b, n) = spec_decode_bytes(s).unwrap();
        lemma_decode_bytes_consumed(s);
        let t = s.skip(n as int);
        lemma_decode_byte_items_consumed(t, (count - 1) as nat);
        let (rest, m) = spec_decode_byte_items(t, (count - 1) as nat).unwrap();
        let l = seq![b] + rest;
        assert(l.drop_first() =~= rest);
        assert(s.take((n + m) as int) =~= s.take(n as int) + t.take(m as int));
        assert forall|i: int| 0 <= i < count implies #[trigger] l[i].len() < 0x1_0000_0000 by {
            if i > 0 {
                assert(l[i] == rest[i - 1]);
            }
        }
    } else {
        assert(s.take(0) =~= Seq::<u8>::empty());
    }
}

/// Reading back an encoded list of byte strings, whatever follows it, gives
/// the list and the length of its encoding.
pub proof fn lemma_decode_byte_list_roundtrip(l: Seq<Seq<u8>>, rest: Seq<u8>)
    requires
        byte_list_wf(l),
    ensures
        spec_decode_byte_list(spec_encode_byte_list(l) + rest) == Some((l, spec_encode_byte_list(l).len())),
{
    let c = spec_compact_encode(l.len());
    let items = spec_encode_byte_items(l);
    lemma_compact_roundtrip(l.len(), items + rest);
    assert(c + (items + rest) =~= spec_encode_byte_list(l) + rest);
    assert((spec_encode_byte_list(l) + rest).skip(c.len() as int) =~= items + rest);
    lemma_decode_byte_items_roundtrip(l, rest);
}

/// What the list reader accepts is exactly the encoding of what it returns.
pub proof fn lemma_decode_byte_list_canonical(s: Seq<u8>)
    requires
        spec_decode_byte_list(s) is Some,
    ensures
        spec_decode_byte_list(s).unwrap().1 <= s.len(),
        byte_list_wf(spec_decode_byte_list(s).unwrap().0),
        s.take(spec_decode_byte_list(s).unwrap().1 as int) == spec_encode_byte_list(spec_decode_byte_list(s).unwrap().0),
{
    lemma_compact_canonical(s);
    let (count, n) = spec_compact_decode(s).unwrap();
    let t = s.skip(n as int);
    lemma_decode_byte_items_consumed(t, count);
    let (l, m) = spec_decode_byte_items(t, count).unwrap();
    assert(s.take((n + m) as int) =~= s.take(n as int) + t.take(m as int));
}

/// Copies the `n` bytes of `s` at `pos` into a new vector.
pub fn copy_range(s: &[u8], pos: usize, n: usize) -> (r: Vec<u8>)
    requires
        pos + n <= s@.len(),
    ensures
        r@ == s@.subrange(pos as int, pos + n),
{
    let mut r: Vec<u8> = Vec::new();
    let mut i: usize = 0;
    while i < n
        invariant
            i <= n,
            pos + n <= s@.len(),
            s@.len() == s.len(),
            r@ == s@.subrange(pos as int, pos + i),
        decreases n - i,
    {
        r.push(s[pos + i]);
        assert(s@.subrange(pos as int, pos + i + 1) =~= s@.subrange(pos as int, pos + i).push(s@[pos + i]));
        i = i + 1;
    }
    r
}

/// Reads a byte string at `pos`: the bytes and the position after them.
pub fn read_bytes(s: &[u8], pos: usize) -> (r: Option<(Vec<u8>, usize)>)
    requires
        pos <= s@.len(),
    ensures
        match spec_decode_bytes(s@.skip(pos as int)) {
            None => r is None,
            Some((b, n)) => r matches Some((v, p)) && v@ == b && p == pos + n,
        },
{
    let ghost t = s@.skip(pos as int);
    match read_compact(s, pos) {
        None => None,
        Some((len, p)) => {
            if len as usize > s.len() - p {
                return None;
            }
            let v = copy_range(s, p, len as usize);
            assert(v@ =~= t.subrange((p - pos) as int, (p - pos) + len));
            Some((v, p + len as usize))
        },
    }
}

/// Reads `count` byte strings one after the other at `pos`.
pub fn read_byte_items(s: &[u8], pos: usize, count: u32) -> (r: Option<(Vec<Vec<u8>>, usize)>)
    requires
        pos <= s@.len(),
    ensures
        match spec_decode_byte_items(s@.skip(pos as int), count as nat) {
            None => r is None,
            Some((l, n)) => r matches Some((v, p)) && byte_list_view(&v) == l && p == pos + n,
        },
{
    let ghost base = s@.skip(pos as int);
    let mut items: Vec<Vec<u8>> = Vec::new();
    let mut cur: usize = pos;
    let mut k: u32 = 0;
    assert(s@.skip(cur as int) == base);
    assert(byte_list_view(&items) + Seq::<Seq<u8>>::empty() =~= byte_list_view(&items));
    while k < count
        invariant
            k <= count,
            pos <= cur <= s@.len(),
            base == s@.skip(pos as int),
            spec_decode_byte_items(base, count as nat) == prepend_items(
                byte_list_view(&items),
                (cur - pos) as nat,
                spec_decode_byte_items(s@.skip(cur as int), (count - k) as nat),
            ),
        decreases count - k,
    {
        let ghost here = s@.skip(cur as int);
        let ghost old_items = byte_list_view(&items);
        match read_bytes(s, cur) {
            None => {
                assert(spec_decode_byte_items(here, (count - k) as nat) is None);
                return None;
            },
            Some((b, next)) => {
                let ghost n = (next - cur) as nat;
                proof {
                    lemma_decode_bytes_consumed(here);
                    assert(here.skip(n as int) =~= s@.skip(next as int));
                }
                items.push(b);
                proof {
                    let d = spec_decode_byte_items(s@.skip(next as int), (count - k - 1) as nat);
                    assert(byte_list_view(&items) =~= old_items.push(b@));
                    assert(spec_decode_byte_items(here, (count - k) as nat) == prepend_items(seq![b@], n, d));
                    match d {
                        None => {},
                        Some((l2, m2)) => {
                            assert(old_items + (seq![b@] + l2) =~= old_items.push(b@) + l2);
                        },
                    }
                }
                cur = next;
                k = k + 1;
            },
        }
    }
    assert(byte_list_view(&items) + Seq::<Seq<u8>>::empty() =~= byte_list_view(&items));
    Some((items, cur))
}

/// Reads a list of byte strings at `pos`: the list and the position after it.
pub fn read_byte_list(s: &[u8], pos: usize) -> (r: Option<(Vec<Vec<u8>>, usize)>)
    requires
        pos <= s@.len(),
    ensures
        match spec_decode_byte_list(s@.skip(pos as int)) {
            None => r is None,
            Some((l, n)) => r matches Some((v, p)) && byte_list_view(&v) == l && p == pos + n,
        },
{
    let ghost t = s@.skip(pos as int);
    let (count, start) = match read_compact(s, pos) {
        None => return None,
        Some(x) => x,
    };
    let ghost n0 = spec_compact_decode(t).unwrap().1;
    assert(s@.skip(start as int) =~= t.skip(n0 as int));
    read_byte_items(s, start, count)
}

/// A fresh copy of the byte strings of `l`.
pub fn copy_byte_list(l: &Vec<Vec<u8>>) -> (r: Vec<Vec<u8>>)
    ensures
        byte_list_view(&r) == byte_list_view(l),
{
    let mut r: Vec<Vec<u8>> = Vec::new();
    let mut i: usize = 0;
    while i < l.len()
        invariant
            i <= l@.len(),
            byte_list_view(&r) == byte_list_view(l).take(i as int),
        decreases l@.len() - i,
    {
        let ghost before = byte_list_view(&r);
        let b = copy_range(l[i].as_slice(), 0, l[i].len());
        assert(b@ =~= l@[i as int]@);
        let ghost old_r = r@;
        r.push(b);
        assert(r@ == old_r.push(b));
        assert(byte_list_view(&r) =~= before.push(b@));
        assert(byte_list_view(l)[i as int] == l@[i as int]@);
        assert(byte_list_view(l).take(i + 1) =~= byte_list_view(l).take(i as int).push(byte_list_view(l)[i as int]));
        i = i + 1;
    }
    assert(byte_list_view(l).take(i as int) =~= byte_list_view(l));
    r
}

// ---------------------------------------------------------------- encoders of the codec

/// Calls `<u128 as parity_scale_codec::Encode>::encode` (re-exported by
/// `sp_core`). Claims what the codec's source shows: the 16 bytes of the
/// number, least significant first.
#[verifier::external_body]
pub(crate) fn encode_u128(v: u128) -> (r: Vec<u8>)
    ensures
        r@ == le_bytes(v as nat, 16),
{
    sp_core::Encode::encode(&v)
}

/// Calls `<u32 as parity_scale_codec::Encode>::encode`. Claims the 4 bytes
/// of the number, least significant first.
#[verifier::external_body]
pub(crate) fn encode_u32(v: u32) -> (r: Vec<u8>)
    ensures
        r@ == le_bytes(v as nat, 4),
{
    sp_core::Encode::encode(&v)
}

/// Calls `<[u8] as parity_scale_codec::Encode>::encode`. Claims the compact
/// length followed by the bytes; the codec panics on 2^32 bytes or more,
/// which `requires` leaves out.
#[verifier::external_body]
pub(crate) fn encode_bytes(b: &[u8]) -> (r: Vec<u8>)
    requires
        b@.len() < 0x1_0000_0000,
    ensures
        r@ == spec_encode_bytes(b@),
{
    sp_core::Encode::encode(b)
}

/// Calls `<Vec<Vec<u8>> as parity_scale_codec::Encode>::encode`. Claims the
/// compact count followed by each byte string encoded; the codec panics on a
/// length of 2^32 or more, which `requires` leaves out.
#[verifier::external_body]
pub(crate) fn encode_byte_list(l: &Vec<Vec<u8>>) -> (r: Vec<u8>)
    requires
        byte_list_wf(byte_list_view(l)),
    ensures
        r@ == spec_encode_byte_list(byte_list_view(l)),
{
    sp_core::Encode::encode(l)
}

} // verus!

//! SSH primitive wire types: `uint32`, `string`, `name-list` and `mpint`.

use crate::Error;
use vstd::prelude::*;
use vstd::slice::slice_subrange;

verus! {

/// The four big-endian octets of `n`.
pub open spec fn u32_be(n: u32) -> Seq<u8> {
    seq![(n >> 24u32) as u8, (n >> 16u32) as u8, (n >> 8u32) as u8, n as u8]
}

/// The number that four big-endian octets stand for.
pub open spec fn be_u32_value(b: Seq<u8>) -> u32
    recommends
        b.len() >= 4,
{
    ((b[0] as u32) << 24u32) | ((b[1] as u32) << 16u32) | ((b[2] as u32) << 8u32) | (b[3] as u32)
}

/// An SSH `string`: the length as a `uint32`, then the octets.
pub open spec fn ssh_string(s: Seq<u8>) -> Seq<u8> {
    u32_be(s.len() as u32) + s
}

/// Reading four octets back gives the number that was written.
pub proof fn lemma_u32_round_trip(n: u32)
    ensures
        be_u32_value(u32_be(n)) == n,
{
    let b0 = (n >> 24u32) as u8;
    let b1 = (n >> 16u32) as u8;
    let b2 = (n >> 8u32) as u8;
    let b3 = n as u8;
    assert(((b0 as u32) << 24u32) | ((b1 as u32) << 16u32) | ((b2 as u32) << 8u32) | (b3 as u32)
        == n) by (bit_vector)
        requires
            b0 == (n >> 24u32) as u8,
            b1 == (n >> 16u32) as u8,
            b2 == (n >> 8u32) as u8,
            b3 == n as u8,
    ;
}

/// Appends `n` as four big-endian octets.
pub fn append_u32(buf: &mut Vec<u8>, n: u32)
    ensures
        final(buf)@ == old(buf)@ + u32_be(n),
{
    buf.push((n >> 24u32) as u8);
    buf.push((n >> 16u32) as u8);
    buf.push((n >> 8u32) as u8);
    buf.push(n as u8);
}

/// Reads a big-endian `uint32` at the start of `b`.
pub fn read_u32(b: &[u8]) -> (r: u32)
    requires
        b@.len() >= 4,
    ensures
        r == be_u32_value(b@),
{
    ((b[0] as u32) << 24u32) | ((b[1] as u32) << 16u32) | ((b[2] as u32) << 8u32) | (b[3] as u32)
}

/// Appends the octets of `s` to `buf`.
pub fn append_bytes(buf: &mut Vec<u8>, s: &[u8])
    ensures
        final(buf)@ == old(buf)@ + s@,
{
    let mut i: usize = 0;
    while i < s.len()
        invariant
            i <= s@.len(),
            buf@ == old(buf)@ + s@.subrange(0, i as int),
        decreases s@.len() - i,
    {
        buf.push(s[i]);
        i += 1;
        assert(s@.subrange(0, i as int) == s@.subrange(0, i - 1) + seq![s@[i - 1]]);
    }
    assert(s@.subrange(0, s@.len() as int) == s@);
}

/// Appends `s` as an SSH `string`.
pub fn append_string(payload: &mut Vec<u8>, string: &[u8])
    requires
        string@.len() <= u32::MAX,
    ensures
        final(payload)@ == old(payload)@ + ssh_string(string@),
{
    append_u32(payload, string.len() as u32);
    append_bytes(payload, string);
    assert(old(payload)@ + u32_be(string@.len() as u32) + string@ == old(payload)@ + ssh_string(
        string@,
    ));
}

/// The content of the SSH `string` at the front of `b`, and what follows it;
/// `None` when fewer than four octets are left or the declared length runs past the end.
pub open spec fn parse_string(b: Seq<u8>) -> Option<(Seq<u8>, Seq<u8>)> {
    if b.len() >= 4 && 4 + be_u32_value(b) <= b.len() {
        Some((b.subrange(4, 4 + be_u32_value(b)), b.subrange(4 + be_u32_value(b), b.len() as int)))
    } else {
        None
    }
}

/// Splits an SSH `string` off the front of `start`: its content and what follows.
/// Fails with `MalformedPacket` when the declared length overruns the buffer.
pub fn extract_string(start: &[u8]) -> (r: Result<(Vec<u8>, &[u8]), Error>)
    ensures
        match r {
            Ok((s, rest)) => parse_string(start@) == Some((s@, rest@)),
            Err(e) => parse_string(start@) is None && e is MalformedPacket,
        },
{
    if start.len() < 4 {
        return Err(Error::MalformedPacket);
    }
    let n = read_u32(start);
    if n as usize > start.len() - 4 {
        return Err(Error::MalformedPacket);
    }
    let end = 4 + n as usize;
    let content = slice_subrange(start, 4, end);
    let mut s: Vec<u8> = Vec::new();
    append_bytes(&mut s, content);
    Ok((s, slice_subrange(start, end, start.len())))
}

/// Extracting what `append_string` wrote gives the octets back and nothing after them.
pub proof fn lemma_string_round_trip(s: Seq<u8>)
    requires
        s.len() <= u32::MAX,
    ensures
        parse_string(ssh_string(s)) == Some((s, Seq::<u8>::empty())),
{
    lemma_u32_round_trip(s.len() as u32);
    let e = ssh_string(s);
    assert(e.subrange(0, 4) == u32_be(s.len() as u32));
    assert(be_u32_value(e) == be_u32_value(u32_be(s.len() as u32)));
    assert(e.subrange(4, 4 + s.len() as int) =~= s);
    assert(e.subrange(4 + s.len() as int, e.len() as int) =~= Seq::<u8>::empty());
}

/// The octets of each vector in `v`.
pub open spec fn byte_lists(v: Seq<Vec<u8>>) -> Seq<Seq<u8>> {
    v.map_values(|x: Vec<u8>| x@)
}

/// Names joined by commas (octet 0x2C), the content of a `name-list`.
pub open spec fn join_names(names: Seq<Seq<u8>>) -> Seq<u8>
    decreases names.len(),
{
    if names.len() == 0 {
        Seq::empty()
    } else if names.len() == 1 {
        names[0]
    } else {
        join_names(names.drop_last()) + seq![44u8] + names.last()
    }
}

/// The pieces of `s` between commas: an empty `s` gives one empty piece.
pub open spec fn split_names(s: Seq<u8>) -> Seq<Seq<u8>>
    decreases s.len(),
{
    if s.len() == 0 {
        seq![Seq::empty()]
    } else {
        let head = split_names(s.drop_last());
        if s.last() == 44u8 {
            head.push(Seq::empty())
        } else {
            head.update(head.len() - 1, head.last().push(s.last()))
        }
    }
}

/// The pieces never run out: there is always at least one.
pub proof fn lemma_split_names_nonempty(s: Seq<u8>)
    ensures
        split_names(s).len() >= 1,
    decreases s.len(),
{
    if s.len() > 0 {
        lemma_split_names_nonempty(s.drop_last());
    }
}

/// Appends `list` as an SSH `name-list`.
pub fn append_name_list(payload: &mut Vec<u8>, list: &[Vec<u8>])
    requires
        join_names(byte_lists(list@)).len() <= u32::MAX,
    ensures
        final(payload)@ == old(payload)@ + ssh_string(join_names(byte_lists(list@))),
{
    let ghost names = byte_lists(list@);
    let mut name_list: Vec<u8> = Vec::new();
    let mut i: usize = 0;
    while i < list.len()
        invariant
            i <= list@.len(),
            names == byte_lists(list@),
            names.len() == list@.len(),
            name_list@ == join_names(names.take(i as int)),
        decreases list@.len() - i,
    {
        assert(names.take(i + 1).drop_last() == names.take(i as int));
        assert(names.take(i + 1).last() == list@[i as int]@);
        if i > 0 {
            name_list.push(44u8);
        }
        append_bytes(&mut name_list, list[i].as_slice());
        i += 1;
        assert(name_list@ == join_names(names.take(i as int)));
    }
    assert(names.take(i as int) == names);
    append_string(payload, name_list.as_slice());
}

/// Splits an SSH `name-list` off the front of `start`: its names, split on commas,
/// and what follows. Fails with `MalformedPacket` when the declared length overruns the buffer.
pub fn extract_name_list(start: &[u8]) -> (r: Result<(Vec<Vec<u8>>, &[u8]), Error>)
    ensures
        match r {
            Ok((names, rest)) => parse_string(start@) matches Some((content, after)) && byte_lists(names@)
                == split_names(content) && rest@ == after,
            Err(e) => parse_string(start@) is None && e is MalformedPacket,
        },
{
    let (content, rest) = extract_string(start)?;
    let mut names: Vec<Vec<u8>> = Vec::new();
    let mut current: Vec<u8> = Vec::new();
    let mut i: usize = 0;
    while i < content.len()
        invariant
            i <= content@.len(),
            byte_lists(names@).push(current@) == split_names(content@.take(i as int)),
        decreases content@.len() - i,
    {
        let b = content[i];
        let ghost prev = byte_lists(names@);
        let ghost cur = current@;
        proof {
            lemma_split_names_nonempty(content@.take(i as int));
            assert(content@.take(i + 1).drop_last() == content@.take(i as int));
            assert(content@.take(i + 1).last() == b);
        }
        if b == 44u8 {
            let done = current;
            names.push(done);
            current = Vec::new();
            assert(byte_lists(names@) =~= prev.push(cur));
        } else {
            current.push(b);
            assert(byte_lists(names@) =~= prev);
        }
        i += 1;
        assert(byte_lists(names@).push(current@) =~= split_names(content@.take(i as int)));
    }
    assert(content@.take(i as int) == content@);
    let ghost prev = byte_lists(names@);
    let ghost cur = current@;
    names.push(current);
    assert(byte_lists(names@) =~= prev.push(cur));
    Ok((names, rest))
}

/// `s` without its leading `b` octets.
pub open spec fn strip_leading(s: Seq<u8>, b: u8) -> Seq<u8>
    decreases s.len(),
{
    if s.len() > 0 && s[0] == b {
        strip_leading(s.drop_first(), b)
    } else {
        s
    }
}

/// The non-negative number that big-endian octets stand for.
pub open spec fn be_value(s: Seq<u8>) -> nat
    decreases s.len(),
{
    if s.len() == 0 {
        0
    } else {
        s[0] as nat * pow256((s.len() - 1) as nat) + be_value(s.drop_first())
    }
}

/// 256 to the power `n`.
pub open spec fn pow256(n: nat) -> nat
    decreases n,
{
    if n == 0 {
        1
    } else {
        256 * pow256((n - 1) as nat)
    }
}

/// The `n` big-endian octets of `x` modulo 256 to the power `n`.
pub open spec fn be_bytes(x: nat, n: nat) -> Seq<u8>
    decreases n,
{
    if n == 0 {
        Seq::empty()
    } else {
        be_bytes(x / 256, (n - 1) as nat).push((x % 256) as u8)
    }
}

/// The content of an `mpint` for the magnitude `num` (big-endian octets) with a sign: the
/// shortest two's-complement octets of `num` or of `-num`. A positive number whose first
/// octet has the high bit set gains a leading `0x00`; a negative one takes one more octet
/// (a leading `0xFF`) when `-num` does not fit the magnitude's length. Zero is empty.
pub open spec fn mpint_body(num: Seq<u8>, positive: bool) -> Seq<u8> {
    let m = strip_leading(num, 0u8);
    let v = be_value(num);
    let l = m.len();
    if l == 0 {
        Seq::empty()
    } else if positive {
        if m[0] >= 0x80 {
            seq![0u8] + m
        } else {
            m
        }
    } else if v <= 128 * pow256((l - 1) as nat) {
        be_bytes((pow256(l) - v) as nat, l)
    } else {
        be_bytes((pow256(l + 1) - v) as nat, l + 1)
    }
}

/// Index of the first octet of `num` at or after `from` that differs from `b`, or the length.
fn skip_leading(num: &[u8], b: u8) -> (r: usize)
    ensures
        r <= num@.len(),
        strip_leading(num@, b) == num@.subrange(r as int, num@.len() as int),
        r < num@.len() ==> num@[r as int] != b,
{
    let mut i: usize = 0;
    assert(num@.subrange(0, num@.len() as int) == num@);
    while i < num.len() && num[i] == b
        invariant
            i <= num@.len(),
            strip_leading(num@, b) == strip_leading(num@.subrange(i as int, num@.len() as int), b),
        decreases num@.len() - i,
    {
        assert(num@.subrange(i as int, num@.len() as int).drop_first() == num@.subrange(
            i + 1,
            num@.len() as int,
        ));
        i += 1;
    }
    let ghost t = num@.subrange(i as int, num@.len() as int);
    assert(t.len() == 0 || t[0] != b);
    i
}

/// Appends the magnitude `num` (big-endian octets) with its sign as an SSH `mpint`.
pub fn append_mpint(payload: &mut Vec<u8>, num: &[u8], is_pos: bool)
    requires
        num@.len() < u32::MAX,
    ensures
        final(payload)@ == old(payload)@ + ssh_string(mpint_body(num@, is_pos)),
{
    let mut mpint: Vec<u8> = Vec::new();
    let i = skip_leading(num, 0u8);
    let m = slice_subrange(num, i, num.len());
    proof {
        lemma_strip_zeros_value(num@);
    }
    if i < num.len() {
        if is_pos {
            if num[i] >= 0x80u8 {
                mpint.push(0u8);
            }
            append_bytes(&mut mpint, m);
        } else {
            let t = negate(m);
            proof {
                lemma_be_value_push(Seq::<u8>::empty(), 0u8);
            }
            if t[0] < 0x80u8 {
                mpint.push(0xFFu8);
            }
            append_bytes(&mut mpint, t.as_slice());
            proof {
                lemma_negative_body(m@, t@, mpint@);
            }
        }
    }
    assert(mpint@ =~= mpint_body(num@, is_pos));
    append_string(payload, mpint.as_slice());
}

/// 256 to any power is positive.
pub proof fn lemma_pow256_positive(n: nat)
    ensures
        pow256(n) >= 1,
    decreases n,
{
    if n > 0 {
        lemma_pow256_positive((n - 1) as nat);
    }
}

/// A number whose first octet is not zero is positive.
pub proof fn lemma_leading_nonzero(m: Seq<u8>)
    requires
        m.len() > 0,
        m[0] != 0,
    ensures
        be_value(m) >= pow256((m.len() - 1) as nat),
        be_value(m) > 0,
{
    lemma_pow256_positive((m.len() - 1) as nat);
    let p = pow256((m.len() - 1) as nat) as int;
    let a = m[0] as int;
    assert(a * p >= p) by (nonlinear_arith)
        requires a >= 1, p >= 1;
}

/// Appending an octet shifts the number by one octet.
pub proof fn lemma_be_value_push(p: Seq<u8>, x: u8)
    ensures
        be_value(p.push(x)) == be_value(p) * 256 + x,
        be_value(p) < pow256(p.len()),
    decreases p.len(),
{
    if p.len() == 0 {
        let s = p.push(x);
        assert(s.drop_first() =~= Seq::<u8>::empty());
        assert(pow256(0) == 1);
        assert(be_value(s) == s[0] as nat * pow256(0) + be_value(s.drop_first()));
    } else {
        let rest = p.drop_first();
        lemma_be_value_push(rest, x);
        assert(p.push(x).drop_first() == rest.push(x));
        let n = rest.len();
        let a = p[0] as int;
        let b = be_value(rest) as int;
        let q = pow256(n) as int;
        assert(pow256(n + 1) == 256 * q);
        assert(be_value(p.push(x)) == a * (256 * q) + (b * 256 + x));
        assert(be_value(p) == a * q + b);
        assert(a * (256 * q) + (b * 256 + x) == (a * q + b) * 256 + x) by (nonlinear_arith);
        assert(a * q + b < 256 * q) by (nonlinear_arith)
            requires
                0 <= a < 256,
                0 <= b < q,
        ;
    }
}

/// Octets are the big-endian form of the number they stand for, at their own length.
pub proof fn lemma_be_bytes_value(s: Seq<u8>)
    ensures
        be_bytes(be_value(s), s.len()) == s,
    decreases s.len(),
{
    if s.len() > 0 {
        let p = s.drop_last();
        let x = s.last();
        assert(s == p.push(x));
        lemma_be_value_push(p, x);
        lemma_be_bytes_value(p);
        let b = be_value(p) as int;
        let xi = x as int;
        assert((b * 256 + xi) / 256 == b) by (nonlinear_arith)
            requires 0 <= xi < 256, b >= 0;
        assert((b * 256 + xi) % 256 == xi) by (nonlinear_arith)
            requires 0 <= xi < 256, b >= 0;
    }
}

/// The two's complement of a nonzero magnitude at its own length: octets whose number is
/// 256 to the power of the length minus the magnitude.
fn negate(m: &[u8]) -> (t: Vec<u8>)
    requires
        m@.len() > 0,
        m@[0] != 0,
    ensures
        t@.len() == m@.len(),
        be_value(t@) + be_value(m@) == pow256(m@.len()),
{
    let mut t: Vec<u8> = Vec::new();
    append_bytes(&mut t, m);
    let l = m.len();
    let mut j: usize = l;
    let mut borrow = false;
    assert(t@.skip(l as int) =~= Seq::<u8>::empty());
    assert(m@.skip(l as int) =~= Seq::<u8>::empty());
    while j > 0
        invariant
            j <= l == m@.len() == t@.len(),
            be_value(t@.skip(j as int)) + be_value(m@.skip(j as int)) == if borrow {
                pow256((l - j) as nat)
            } else {
                0
            },
        decreases j,
    {
        let a = m[j - 1];
        let ghost old_t = t@;
        let d: u8 = if borrow {
            255u8 - a
        } else if a == 0 {
            0u8
        } else {
            (255u8 - a) + 1
        };
        t[j - 1] = d;
        proof {
            let n = (l - j) as nat;
            assert(m@.skip(j - 1) == seq![a] + m@.skip(j as int));
            assert(t@.skip(j - 1) == seq![d] + old_t.skip(j as int));
            assert(t@.skip(j as int) == old_t.skip(j as int));
            assert((seq![a] + m@.skip(j as int)).drop_first() == m@.skip(j as int));
            assert((seq![d] + old_t.skip(j as int)).drop_first() == old_t.skip(j as int));
            assert(pow256(n + 1) == 256 * pow256(n));
            let sm = m@.skip(j as int);
            let st = old_t.skip(j as int);
            assert(sm.len() == n && st.len() == n);
            let big_p = pow256(n) as int;
            let bm = be_value(sm) as int;
            let bt = be_value(st) as int;
            let ai = a as int;
            let di = d as int;
            assert(be_value(seq![a] + sm) == ai * big_p + bm);
            assert(be_value(seq![d] + st) == di * big_p + bt);
            if borrow {
                assert(di == 255 - ai);
                assert(di * big_p + bt + (ai * big_p + bm) == 256 * big_p) by (nonlinear_arith)
                    requires di == 255 - ai, bt + bm == big_p;
            } else if a == 0 {
                assert(di * big_p + bt + (ai * big_p + bm) == 0) by (nonlinear_arith)
                    requires di == 0, ai == 0, bt + bm == 0;
            } else {
                assert(di == 256 - ai);
                assert(di * big_p + bt + (ai * big_p + bm) == 256 * big_p) by (nonlinear_arith)
                    requires di == 256 - ai, bt + bm == 0, bt >= 0, bm >= 0;
            }
        }
        borrow = borrow || a != 0;
        j -= 1;
    }
    proof {
        assert(m@.skip(0) == m@);
        assert(t@.skip(0) == t@);
        lemma_leading_nonzero(m@);
    }
    t
}

/// The negative `mpint` body built from the two's complement `t` of the magnitude `m`: `t`
/// alone when its first octet has the high bit set, else `t` behind `0xFF`.
proof fn lemma_negative_body(m: Seq<u8>, t: Seq<u8>, body: Seq<u8>)
    requires
        m.len() > 0,
        m[0] != 0,
        t.len() == m.len(),
        be_value(t) + be_value(m) == pow256(m.len()),
        body == (if t[0] < 0x80 {
            seq![0xFFu8] + t
        } else {
            t
        }),
    ensures
        strip_leading(m, 0u8) == m,
        body == (if be_value(m) <= 128 * pow256((m.len() - 1) as nat) {
            be_bytes((pow256(m.len()) - be_value(m)) as nat, m.len())
        } else {
            be_bytes((pow256(m.len() + 1) - be_value(m)) as nat, m.len() + 1)
        }),
{
    let l = m.len();
    let q = pow256((l - 1) as nat) as int;
    let v = be_value(m) as int;
    let bt = be_value(t) as int;
    lemma_pow256_positive((l - 1) as nat);
    assert(pow256(l) == 256 * q);
    assert(pow256(l + 1) == 256 * pow256(l));
    let rest = t.drop_first();
    lemma_be_value_push(rest, 0u8);
    assert(rest.len() == l - 1);
    let r = be_value(rest) as int;
    let a = t[0] as int;
    assert(bt == a * q + r);
    assert((v <= 128 * q) == (a >= 128)) by (nonlinear_arith)
        requires
            bt == a * q + r,
            bt + v == 256 * q,
            0 <= r < q,
            0 <= a < 256,
    ;
    lemma_be_bytes_value(t);
    if t[0] < 0x80 {
        let u = seq![0xFFu8] + t;
        assert(u.drop_first() == t);
        assert(be_value(u) == 255 * pow256(l) + be_value(t));
        lemma_be_bytes_value(u);
    }
}

/// Splits an SSH `mpint` off the front of `start` and reads it as a non-negative number:
/// its big-endian octets without leading zeros, and what follows.
/// Fails with `MalformedPacket` when the declared length overruns the buffer.
pub fn extract_mpint_unsigned(start: &[u8]) -> (r: Result<(Vec<u8>, &[u8]), Error>)
    ensures
        match r {
            Ok((n, rest)) => parse_string(start@) matches Some((content, after)) && n@
                == strip_leading(content, 0u8) && rest@ == after,
            Err(e) => parse_string(start@) is None && e is MalformedPacket,
        },
{
    let (content, rest) = extract_string(start)?;
    let i = skip_leading(content.as_slice(), 0u8);
    let mut n: Vec<u8> = Vec::new();
    append_bytes(&mut n, slice_subrange(content.as_slice(), i, content.len()));
    Ok((n, rest))
}

/// Stripping leading octets leaves a suffix that does not start with that octet.
pub proof fn lemma_strip_leading(s: Seq<u8>, b: u8)
    ensures
        strip_leading(s, b).len() <= s.len(),
        strip_leading(s, b) == s.subrange(s.len() - strip_leading(s, b).len(), s.len() as int),
        strip_leading(s, b).len() == 0 || strip_leading(s, b)[0] != b,
    decreases s.len(),
{
    if s.len() > 0 && s[0] == b {
        lemma_strip_leading(s.drop_first(), b);
        let t = strip_leading(s.drop_first(), b);
        assert(s.drop_first().subrange(s.len() - 1 - t.len(), s.len() - 1) == s.subrange(
            s.len() - t.len(),
            s.len() as int,
        ));
    } else {
        assert(s.subrange(0, s.len() as int) == s);
    }
}

/// Leading zero octets do not change the number.
pub proof fn lemma_strip_zeros_value(s: Seq<u8>)
    ensures
        be_value(strip_leading(s, 0u8)) == be_value(s),
    decreases s.len(),
{
    if s.len() > 0 && s[0] == 0u8 {
        lemma_strip_zeros_value(s.drop_first());
    }
}

/// Reading back an `mpint` written from a magnitude gives the same number, in its shortest
/// form, and nothing after it.
pub proof fn lemma_mpint_round_trip(num: Seq<u8>)
    requires
        num.len() < u32::MAX,
    ensures
        mpint_body(num, true).len() <= u32::MAX,
        parse_string(ssh_string(mpint_body(num, true))) == Some(
            (mpint_body(num, true), Seq::<u8>::empty()),
        ),
        strip_leading(mpint_body(num, true), 0u8) == strip_leading(num, 0u8),
        be_value(strip_leading(mpint_body(num, true), 0u8)) == be_value(num),
{
    lemma_strip_leading(num, 0u8);
    lemma_strip_zeros_value(num);
    let m = strip_leading(num, 0u8);
    let body = mpint_body(num, true);
    assert(strip_leading(m, 0u8) == m);
    if num.len() > 0 && m.len() > 0 && m[0] >= 0x80 {
        assert(body.drop_first() == m);
        assert(strip_leading(body, 0u8) == strip_leading(m, 0u8));
    }
    lemma_string_round_trip(body);
}

/// Whether two octet strings are equal.
pub fn bytes_eq(a: &[u8], b: &[u8]) -> (r: bool)
    ensures
        r == (a@ == b@),
{
    if a.len() != b.len() {
        return false;
    }
    let mut i: usize = 0;
    while i < a.len()
        invariant
            a@.len() == b@.len(),
            i <= a@.len(),
            forall|j: int| 0 <= j < i ==> a@[j] == b@[j],
        decreases a@.len() - i,
    {
        if a[i] != b[i] {
            return false;
        }
        i += 1;
    }
    assert(a@ =~= b@);
    true
}

/// Whether `s` begins with `prefix`.
pub fn starts_with(s: &[u8], prefix: &[u8]) -> (r: bool)
    ensures
        r == (prefix@.len() <= s@.len() && s@.take(prefix@.len() as int) == prefix@),
{
    if prefix.len() > s.len() {
        return false;
    }
    bytes_eq(slice_subrange(s, 0, prefix.len()), prefix)
}

} // verus!
